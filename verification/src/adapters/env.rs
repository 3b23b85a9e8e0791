//! The process environment, read once at start and passed on as plain values.
//! The variables themselves are read by the program; these functions decide
//! what they mean.

use vstd::prelude::*;

use crate::domain::error::AppError;
use crate::domain::ids::{PaneId, TabId, WorkspaceId};
use crate::domain::pane::OriginContext;
use crate::domain::text::{copy_string, join_path, owned, path_join};

verus! {

/// Values read once at process start, then passed as ordinary data.
#[derive(Debug, Clone)]
pub struct ProcessEnv {
    pub socket_path: String,
    pub own_pane_id: Option<PaneId>,
    pub state_dir: String,
    pub tui_origin: TuiOrigin,
    /// `HERDR_NPM_ICONS`, which forces the glyph set.
    pub icons: Option<String>,
}

/// The origin handed to the sidebar pane through its environment.
#[derive(Debug, Clone, PartialEq, Eq, Default)]
pub struct TuiOrigin {
    pub workspace_id: Option<String>,
    pub tab_id: Option<String>,
    pub pane_id: Option<String>,
    pub foreground_cwd: Option<String>,
    pub cwd: Option<String>,
}

/// The variables the process reads. Each is `None` when unset; the program
/// passes set values as they are, empty ones included.
#[derive(Debug, Clone, Default)]
pub struct ProcessVars {
    pub socket_path: Option<String>,
    pub home: Option<String>,
    pub plugin_state_dir: Option<String>,
    pub pane_id: Option<String>,
    pub origin_workspace: Option<String>,
    pub origin_tab: Option<String>,
    pub origin_pane: Option<String>,
    pub origin_foreground_cwd: Option<String>,
    pub origin_cwd: Option<String>,
    pub icons: Option<String>,
}

/// The plugin context that Herdr passes as JSON to an action.
#[derive(Debug, Clone, Default)]
pub struct PluginContext {
    pub workspace_id: Option<String>,
    pub tab_id: Option<String>,
    pub focused_pane_id: Option<String>,
    pub focused_pane_cwd: Option<String>,
}

/// The variables an action reads to find its origin.
#[derive(Debug, Clone, Default)]
pub struct ActionVars {
    pub workspace_id: Option<String>,
    pub active_workspace_id: Option<String>,
    pub tab_id: Option<String>,
    pub active_tab_id: Option<String>,
    pub active_pane_id: Option<String>,
    pub pane_id: Option<String>,
    pub active_pane_cwd: Option<String>,
    /// The parsed context, `None` when it is unset or does not parse.
    pub context: Option<PluginContext>,
}

/// An optional text by its characters.
pub open spec fn opt_view(v: Option<String>) -> Option<Seq<char>> {
    match v {
        Some(s) => Some(s@),
        None => None,
    }
}

/// A set variable counts only when it is not empty.
pub open spec fn set_value(v: Option<String>) -> Option<Seq<char>> {
    match v {
        Some(s) if s@.len() > 0 => Some(s@),
        _ => None,
    }
}

fn non_empty(v: &Option<String>) -> (r: Option<String>)
    ensures
        opt_view(r) == set_value(*v),
{
    match v {
        Some(s) => if s.as_str().is_empty() {
            None
        } else {
            Some(copy_string(s))
        },
        None => None,
    }
}

/// The first value that is present.
pub open spec fn first_some(values: Seq<Option<String>>) -> Option<Seq<char>>
    decreases values.len(),
{
    if values.len() == 0 {
        None
    } else {
        match values[0] {
            Some(s) => Some(s@),
            None => first_some(values.skip(1)),
        }
    }
}

pub fn first_non_empty(values: &[Option<String>]) -> (r: Option<String>)
    ensures
        opt_view(r) == first_some(values@),
{
    let mut i: usize = 0;
    assert(values@.skip(0) =~= values@);
    while i < values.len()
        invariant
            i <= values@.len(),
            first_some(values@) == first_some(values@.skip(i as int)),
        decreases values.len() - i,
    {
        if let Some(s) = &values[i] {
            return Some(copy_string(s));
        }
        assert(values@.skip(i as int).skip(1) =~= values@.skip(i + 1));
        i += 1;
    }
    None
}

/// The first of the values that is present.
pub open spec fn first_present(values: Seq<Option<Seq<char>>>) -> Option<Seq<char>>
    decreases values.len(),
{
    if values.len() == 0 {
        None
    } else {
        match values[0] {
            Some(s) => Some(s),
            None => first_present(values.skip(1)),
        }
    }
}

/// The views of a list of optional texts.
pub open spec fn opt_views(values: Seq<Option<String>>) -> Seq<Option<Seq<char>>> {
    values.map_values(|v: Option<String>| opt_view(v))
}

fn first_present_value(values: &Vec<Option<String>>) -> (r: Option<String>)
    ensures
        opt_view(r) == first_present(opt_views(values@)),
{
    let ghost views = opt_views(values@);
    let mut i: usize = 0;
    assert(views.skip(0) =~= views);
    while i < values.len()
        invariant
            i <= values@.len(),
            views == opt_views(values@),
            first_present(views) == first_present(views.skip(i as int)),
        decreases values.len() - i,
    {
        assert(views.skip(i as int)[0] == opt_view(values@[i as int]));
        if let Some(v) = &values[i] {
            return Some(copy_string(v));
        }
        assert(views.skip(i as int).skip(1) =~= views.skip(i + 1));
        i += 1;
    }
    None
}

pub open spec fn ctx_workspace(c: Option<PluginContext>) -> Option<Seq<char>> {
    match c {
        Some(ctx) => opt_view(ctx.workspace_id),
        None => None,
    }
}

pub open spec fn ctx_tab(c: Option<PluginContext>) -> Option<Seq<char>> {
    match c {
        Some(ctx) => opt_view(ctx.tab_id),
        None => None,
    }
}

pub open spec fn ctx_pane(c: Option<PluginContext>) -> Option<Seq<char>> {
    match c {
        Some(ctx) => opt_view(ctx.focused_pane_id),
        None => None,
    }
}

pub open spec fn ctx_cwd(c: Option<PluginContext>) -> Option<Seq<char>> {
    match c {
        Some(ctx) => opt_view(ctx.focused_pane_cwd),
        None => None,
    }
}

/// Where the origin workspace comes from, in order of preference. A variable
/// counts only when it is set and not empty; a context value counts as it is.
pub open spec fn workspace_sources(v: ActionVars) -> Seq<Option<Seq<char>>> {
    seq![set_value(v.workspace_id), set_value(v.active_workspace_id), ctx_workspace(v.context)]
}

pub open spec fn tab_sources(v: ActionVars) -> Seq<Option<Seq<char>>> {
    seq![set_value(v.tab_id), set_value(v.active_tab_id), ctx_tab(v.context)]
}

pub open spec fn pane_sources(v: ActionVars) -> Seq<Option<Seq<char>>> {
    seq![set_value(v.active_pane_id), ctx_pane(v.context), set_value(v.pane_id)]
}

pub open spec fn cwd_sources(v: ActionVars) -> Seq<Option<Seq<char>>> {
    seq![set_value(v.active_pane_cwd), ctx_cwd(v.context)]
}

fn copy_opt(v: &Option<String>) -> (r: Option<String>)
    ensures
        opt_view(r) == opt_view(*v),
{
    match v {
        Some(s) => Some(copy_string(s)),
        None => None,
    }
}

fn context_value(context: &Option<PluginContext>, which: u8) -> (r: Option<String>)
    requires
        which < 4,
    ensures
        which == 0 ==> opt_view(r) == ctx_workspace(*context),
        which == 1 ==> opt_view(r) == ctx_tab(*context),
        which == 2 ==> opt_view(r) == ctx_pane(*context),
        which == 3 ==> opt_view(r) == ctx_cwd(*context),
{
    match context {
        None => None,
        Some(c) => if which == 0 {
            copy_opt(&c.workspace_id)
        } else if which == 1 {
            copy_opt(&c.tab_id)
        } else if which == 2 {
            copy_opt(&c.focused_pane_id)
        } else {
            copy_opt(&c.focused_pane_cwd)
        },
    }
}

/// The origin of an action: workspace, tab and pane each from the first
/// source present (a variable only when not empty, a context value even when
/// empty), and the foreground directory where one is known.
pub fn origin_from_env(vars: &ActionVars) -> (r: Result<OriginContext, AppError>)
    ensures
        match (
            first_present(workspace_sources(*vars)),
            first_present(tab_sources(*vars)),
            first_present(pane_sources(*vars)),
        ) {
            (Some(w), Some(t), Some(p)) => r is Ok && r->Ok_0.workspace_id.0@ == w
                && r->Ok_0.tab_id.0@ == t && r->Ok_0.pane_id.0@ == p && r->Ok_0.cwd is None
                && opt_view(r->Ok_0.foreground_cwd) == first_present(cwd_sources(*vars)),
            _ => r == Err::<OriginContext, AppError>(AppError::OriginMissing),
        },
{
    let ws = vec![non_empty(&vars.workspace_id), non_empty(&vars.active_workspace_id), context_value(&vars.context, 0)];
    assert(opt_views(ws@) =~= workspace_sources(*vars));
    let workspace = first_present_value(&ws);
    let ts = vec![non_empty(&vars.tab_id), non_empty(&vars.active_tab_id), context_value(&vars.context, 1)];
    assert(opt_views(ts@) =~= tab_sources(*vars));
    let tab = first_present_value(&ts);
    let ps = vec![non_empty(&vars.active_pane_id), context_value(&vars.context, 2), non_empty(&vars.pane_id)];
    assert(opt_views(ps@) =~= pane_sources(*vars));
    let pane = first_present_value(&ps);
    match (workspace, tab, pane) {
        (Some(workspace_id), Some(tab_id), Some(pane_id)) => {
            let cs = vec![non_empty(&vars.active_pane_cwd), context_value(&vars.context, 3)];
            assert(opt_views(cs@) =~= cwd_sources(*vars));
            let foreground = first_present_value(&cs);
            Ok(OriginContext {
                workspace_id: WorkspaceId(workspace_id),
                tab_id: TabId(tab_id),
                pane_id: PaneId(pane_id),
                foreground_cwd: foreground,
                cwd: None,
            })
        },
        _ => Err(AppError::OriginMissing),
    }
}

/// The socket: `HERDR_SOCKET_PATH` when set, else under `HOME`.
pub open spec fn spec_socket_path(vars: ProcessVars) -> Option<Seq<char>> {
    match vars.socket_path {
        Some(p) => Some(p@),
        None => match vars.home {
            Some(h) => Some(path_join(h@, ".config/herdr/herdr.sock"@)),
            None => None,
        },
    }
}

pub fn socket_path(vars: &ProcessVars) -> (r: Result<String, AppError>)
    ensures
        match spec_socket_path(*vars) {
            Some(p) => r is Ok && r->Ok_0@ == p,
            None => r is Err && r->Err_0 is Io && r->Err_0->Io_message@
                == "HOME is unset and HERDR_SOCKET_PATH is missing"@,
        },
{
    if let Some(path) = &vars.socket_path {
        return Ok(copy_string(path));
    }
    match &vars.home {
        Some(home) => Ok(join_path(home.as_str(), ".config/herdr/herdr.sock")),
        None => Err(AppError::Io { message: owned("HOME is unset and HERDR_SOCKET_PATH is missing") }),
    }
}

/// The plugin's state directory.
pub open spec fn spec_state_dir(vars: ProcessVars) -> Seq<char> {
    match vars.plugin_state_dir {
        Some(p) => p@,
        None => path_join(
            match vars.home {
                Some(h) => h@,
                None => "/tmp"@,
            },
            ".local/state/herdr/plugins/herdr-npm"@,
        ),
    }
}

pub fn state_dir(vars: &ProcessVars) -> (r: String)
    ensures
        r@ == spec_state_dir(*vars),
{
    if let Some(path) = &vars.plugin_state_dir {
        return copy_string(path);
    }
    let base = match &vars.home {
        Some(h) => copy_string(h),
        None => owned("/tmp"),
    };
    join_path(base.as_str(), ".local/state/herdr/plugins/herdr-npm")
}

/// The process environment: the socket (required), the pane's own id, the
/// state directory and the origin passed to the sidebar pane.
pub fn load(vars: &ProcessVars) -> (r: Result<ProcessEnv, AppError>)
    ensures
        match spec_socket_path(*vars) {
            None => r is Err && r->Err_0 is Io,
            Some(p) => r is Ok && {
                let e = r->Ok_0;
                &&& e.socket_path@ == p
                &&& e.state_dir@ == spec_state_dir(*vars)
                &&& match set_value(vars.pane_id) {
                    Some(id) => e.own_pane_id is Some && (e.own_pane_id->0).0@ == id,
                    None => e.own_pane_id is None,
                }
                &&& opt_view(e.tui_origin.workspace_id) == set_value(vars.origin_workspace)
                &&& opt_view(e.tui_origin.tab_id) == set_value(vars.origin_tab)
                &&& opt_view(e.tui_origin.pane_id) == set_value(vars.origin_pane)
                &&& opt_view(e.tui_origin.foreground_cwd) == set_value(vars.origin_foreground_cwd)
                &&& opt_view(e.tui_origin.cwd) == set_value(vars.origin_cwd)
                &&& opt_view(e.icons) == set_value(vars.icons)
            },
        },
{
    let socket = socket_path(vars)?;
    let own = match non_empty(&vars.pane_id) {
        Some(id) => Some(PaneId(id)),
        None => None,
    };
    Ok(ProcessEnv {
        socket_path: socket,
        own_pane_id: own,
        state_dir: state_dir(vars),
        tui_origin: TuiOrigin {
            workspace_id: non_empty(&vars.origin_workspace),
            tab_id: non_empty(&vars.origin_tab),
            pane_id: non_empty(&vars.origin_pane),
            foreground_cwd: non_empty(&vars.origin_foreground_cwd),
            cwd: non_empty(&vars.origin_cwd),
        },
        icons: non_empty(&vars.icons),
    })
}

} // verus!
