//! What Herdr reports about panes, and how the plugin recognises its own
//! sidebar and the explorer.

use vstd::prelude::*;

use super::ids::{PaneId, TabId, WorkspaceId};
use super::text::{copy_string, same_text};
use super::{EXPLORER_TOKEN_KEY, SIDEBAR_TOKEN_KEY, SIDEBAR_TOKEN_VALUE};

verus! {

/// Context captured from the action before any socket I/O.
#[derive(Debug, Clone, PartialEq, Eq)]
pub struct OriginContext {
    pub workspace_id: WorkspaceId,
    pub tab_id: TabId,
    pub pane_id: PaneId,
    pub foreground_cwd: Option<String>,
    pub cwd: Option<String>,
}

/// One entry of `pane.list`. `tokens` holds the pane's session tokens as
/// key/value pairs with distinct keys.
#[derive(Debug, Clone, PartialEq, Eq)]
pub struct PaneInfo {
    pub pane_id: String,
    pub workspace_id: String,
    pub tab_id: String,
    pub focused: bool,
    pub label: Option<String>,
    pub title: Option<String>,
    pub cwd: Option<String>,
    pub foreground_cwd: Option<String>,
    pub tokens: Vec<(String, String)>,
}

/// Some token has the key.
pub open spec fn has_token(tokens: Seq<(String, String)>, key: Seq<char>) -> bool {
    exists|i: int| 0 <= i < tokens.len() && (#[trigger] tokens[i]).0@ == key
}

/// The token with the key has the value (the first such entry, as a map
/// holds one entry per key).
pub open spec fn token_is(tokens: Seq<(String, String)>, key: Seq<char>, value: Seq<char>) -> bool {
    exists|i: int|
        0 <= i < tokens.len() && (#[trigger] tokens[i]).0@ == key && tokens[i].1@ == value
            && forall|j: int| 0 <= j < i ==> tokens[j].0@ != key
}

/// No key occurs twice among the tokens, as in the map Herdr reports.
pub open spec fn keys_distinct(tokens: Seq<(String, String)>) -> bool {
    forall|i: int, j: int|
        0 <= i < j < tokens.len() ==> (#[trigger] tokens[i]).0@ != (#[trigger] tokens[j]).0@
}

impl PaneInfo {
    /// The tokens form a map: one entry per key.
    pub open spec fn well_formed(self) -> bool {
        keys_distinct(self.tokens@)
    }
}

/// With one entry per key, the first entry with a key is the only one, so
/// reading the tokens as a list gives what a map lookup gives.
pub proof fn lemma_token_is_map_lookup(tokens: Seq<(String, String)>, key: Seq<char>, value: Seq<char>)
    requires
        keys_distinct(tokens),
    ensures
        token_is(tokens, key, value) <==> exists|i: int|
            0 <= i < tokens.len() && (#[trigger] tokens[i]).0@ == key && tokens[i].1@ == value,
{
    if exists|i: int| 0 <= i < tokens.len() && (#[trigger] tokens[i]).0@ == key && tokens[i].1@ == value {
        let i = choose|i: int| 0 <= i < tokens.len() && (#[trigger] tokens[i]).0@ == key && tokens[i].1@ == value;
        assert forall|j: int| 0 <= j < i implies tokens[j].0@ != key by {
            assert(tokens[j].0@ != tokens[i].0@);
        }
    }
}

/// A label or title that names the explorer column.
pub open spec fn names_explorer(text: Option<String>) -> bool {
    match text {
        Some(t) => t@ == "Sidebar"@ || t@ == "Explorer"@,
        None => false,
    }
}

/// The pane carries this plugin's session token.
pub open spec fn spec_is_sidebar(p: PaneInfo) -> bool {
    token_is(p.tokens@, SIDEBAR_TOKEN_KEY@, SIDEBAR_TOKEN_VALUE@)
}

/// The pane is the herdr-sidebar explorer: by its token, label or title.
pub open spec fn spec_is_explorer(p: PaneInfo) -> bool {
    has_token(p.tokens@, EXPLORER_TOKEN_KEY@) || names_explorer(p.label) || names_explorer(p.title)
}

fn find_token(tokens: &Vec<(String, String)>, key: &str) -> (r: Option<usize>)
    ensures
        match r {
            Some(i) => i < tokens@.len() && tokens@[i as int].0@ == key@ && forall|t: int|
                0 <= t < i ==> tokens@[t].0@ != key@,
            None => !has_token(tokens@, key@),
        },
{
    let mut i: usize = 0;
    while i < tokens.len()
        invariant
            i <= tokens@.len(),
            forall|t: int| 0 <= t < i ==> tokens@[t].0@ != key@,
        decreases tokens.len() - i,
    {
        if same_text(tokens[i].0.as_str(), key) {
            return Some(i);
        }
        i += 1;
    }
    None
}

fn names_explorer_exec(text: &Option<String>) -> (r: bool)
    ensures
        r == names_explorer(*text),
{
    match text {
        Some(t) => same_text(t.as_str(), "Sidebar") || same_text(t.as_str(), "Explorer"),
        None => false,
    }
}

impl PaneInfo {
    pub fn id(&self) -> (r: PaneId)
        ensures
            r.0@ == self.pane_id@,
    {
        PaneId(copy_string(&self.pane_id))
    }

    pub fn tab(&self) -> (r: TabId)
        ensures
            r.0@ == self.tab_id@,
    {
        TabId(copy_string(&self.tab_id))
    }

    /// Recognition is the session token alone.
    pub fn is_herdr_npm_sidebar(&self) -> (r: bool)
        ensures
            r == spec_is_sidebar(*self),
    {
        match find_token(&self.tokens, SIDEBAR_TOKEN_KEY) {
            Some(i) => {
                let r = same_text(self.tokens[i].1.as_str(), SIDEBAR_TOKEN_VALUE);
                proof {
                    if !r {
                        assert forall|j: int|
                            0 <= j < self.tokens@.len() && (#[trigger] self.tokens@[j]).0@
                                == SIDEBAR_TOKEN_KEY@ && self.tokens@[j].1@ == SIDEBAR_TOKEN_VALUE@
                                implies exists|t: int|
                            0 <= t < j && self.tokens@[t].0@ == SIDEBAR_TOKEN_KEY@ by {
                            if j > i {
                                assert(self.tokens@[i as int].0@ == SIDEBAR_TOKEN_KEY@);
                            }
                        }
                    }
                }
                r
            },
            None => false,
        }
    }

    pub fn is_explorer(&self) -> (r: bool)
        ensures
            r == spec_is_explorer(*self),
            (exists|i: int| 0 <= i < self.tokens@.len() && (#[trigger] self.tokens@[i]).0@ == EXPLORER_TOKEN_KEY@) ==> r,
            names_explorer(self.label) || names_explorer(self.title) ==> r,
    {
        find_token(&self.tokens, EXPLORER_TOKEN_KEY).is_some() || names_explorer_exec(&self.label)
            || names_explorer_exec(&self.title)
    }

    /// Neither the plugin's sidebar nor the explorer may receive a split.
    pub fn is_excluded_working_target(&self) -> (r: bool)
        ensures
            r == (spec_is_sidebar(*self) || spec_is_explorer(*self)),
    {
        self.is_herdr_npm_sidebar() || self.is_explorer()
    }
}

/// A rectangle of cells.
#[derive(Debug, Clone, Copy, PartialEq, Eq, Structural)]
pub struct LayoutRect {
    pub x: u16,
    pub y: u16,
    pub width: u16,
    pub height: u16,
}

#[derive(Debug, Clone, PartialEq, Eq)]
pub struct LayoutPane {
    pub pane_id: String,
    pub focused: bool,
    pub rect: LayoutRect,
}

/// The tab layout that `pane.layout` reports, without its split ratios.
#[derive(Debug, Clone, PartialEq, Eq)]
pub struct LayoutSnapshot {
    pub workspace_id: String,
    pub tab_id: String,
    pub area: LayoutRect,
    pub focused_pane_id: String,
    pub panes: Vec<LayoutPane>,
}

#[derive(Debug, Clone, PartialEq, Eq)]
pub struct OpenedPane {
    pub pane_id: PaneId,
}

#[derive(Debug, Clone, PartialEq, Eq)]
pub struct CreatedTab {
    pub tab_id: TabId,
    pub root_pane_id: PaneId,
}

} // verus!
