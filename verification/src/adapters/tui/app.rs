//! The sidebar's list state: rows, search, selection and scrolling.

use vstd::prelude::*;

use super::theme::{clamp_cols, Theme, FOOTER_HELP};
use super::view::{column_layout, rect, sat_sub, spec_layout, ColumnGeometry, Rect};
use crate::application::list_scripts::ListedScripts;
use crate::domain::catalog::{
    manager_name, spec_first_package, spec_package, PackageCatalog, ProjectCatalog, RunIntent,
    Script, WorkspaceCatalog, WorkspacePackage,
};
use crate::domain::error::{error_text, AppError};
use crate::domain::fuzzy::{as_ints, filter_names, key_lt, name_score, FuzzyMatch};
use crate::domain::text::{cell_width, chars_of, copy_string, owned, push_char, same_text, text_width, width_of_char};
use crate::domain::CWD_FALLBACK_NOTE;

verus! {

pub const MIN_INNER_COLS: u16 = 12;

pub const MIN_INNER_ROWS: u16 = 4;

pub const WHEEL_LINES: isize = 3;

#[derive(Debug, Clone, Copy, PartialEq, Eq, Structural)]
pub enum SearchMode {
    Off,
    Editing,
    Applied,
}

#[derive(Debug, Clone)]
pub struct SearchState {
    pub mode: SearchMode,
    pub query: String,
    pub matches: Vec<FuzzyMatch>,
}

/// Every row index `0..len` in order, with no highlight.
pub open spec fn is_unfiltered(m: Seq<FuzzyMatch>, len: nat) -> bool {
    m.len() == len && forall|i: int| 0 <= i < len ==> (#[trigger] m[i]).index == i && m[i].positions@.len()
        == 0
}

fn unfiltered(len: usize) -> (r: Vec<FuzzyMatch>)
    ensures
        is_unfiltered(r@, len as nat),
{
    let mut out: Vec<FuzzyMatch> = Vec::new();
    let mut i: usize = 0;
    while i < len
        invariant
            i <= len,
            is_unfiltered(out@, i as nat),
        decreases len - i,
    {
        out.push(FuzzyMatch { index: i, positions: Vec::new() });
        i += 1;
    }
    out
}

impl SearchState {
    pub fn for_len(len: usize) -> (r: Self)
        ensures
            r.mode == SearchMode::Off,
            r.query@.len() == 0,
            is_unfiltered(r.matches@, len as nat),
    {
        SearchState { mode: SearchMode::Off, query: String::new(), matches: unfiltered(len) }
    }

    pub fn is_editing(&self) -> (r: bool)
        ensures
            r == (self.mode == SearchMode::Editing),
    {
        self.mode == SearchMode::Editing
    }

    pub fn has_filter(&self) -> (r: bool)
        ensures
            r == (self.mode != SearchMode::Off || self.query@.len() > 0),
    {
        self.mode != SearchMode::Off || !self.query.as_str().is_empty()
    }
}

/// A row of the list: a workspace group header, or one script.
#[derive(Debug, Clone, PartialEq, Eq)]
pub enum CatalogRow {
    Group(String),
    Script(RunIntent),
}

/// The package root that a row belongs to.
pub open spec fn row_root(row: CatalogRow) -> Seq<char> {
    match row {
        CatalogRow::Group(root) => root@,
        CatalogRow::Script(intent) => intent.package_root@,
    }
}

impl CatalogRow {
    pub fn package_root(&self) -> (r: &str)
        ensures
            r@ == row_root(*self),
    {
        match self {
            CatalogRow::Group(root) => root.as_str(),
            CatalogRow::Script(intent) => intent.package_root.as_str(),
        }
    }
}

/// The largest first row that still fills a list of `height` rows.
pub open spec fn spec_max_offset(len: int, height: int) -> int {
    if height == 0 || len <= height {
        0
    } else {
        len - height
    }
}

pub fn max_list_offset(len: usize, height: usize) -> (r: usize)
    ensures
        r as int == spec_max_offset(len as int, height as int),
{
    if height == 0 {
        0
    } else {
        len.saturating_sub(height)
    }
}

/// `v` clamped into `[lo, hi]`.
pub open spec fn clamp_int(v: int, lo: int, hi: int) -> int {
    if v < lo {
        lo
    } else if v > hi {
        hi
    } else {
        v
    }
}

/// Scroll by `delta` rows, stopping at both ends of the list. Offsets and
/// lengths are counted as integers: a list never holds more rows than a
/// `Vec` can.
pub fn bounded_list_offset(offset: usize, delta: isize, len: usize, height: usize) -> (r: usize)
    ensures
        r as int == clamp_int(offset + delta, 0, spec_max_offset(len as int, height as int)),
        r as int <= spec_max_offset(len as int, height as int),
{
    let max = max_list_offset(len, height);
    let next: i128 = offset as i128 + delta as i128;
    if next < 0 {
        0
    } else if next > max as i128 {
        max
    } else {
        next as usize
    }
}

/// A key as the sidebar reads it.
#[derive(Debug, Clone, Copy, PartialEq, Eq, Structural)]
pub enum KeyCode {
    Char(char),
    Esc,
    Enter,
    Backspace,
    Up,
    Down,
    Left,
    Right,
    Other,
}

/// A key press, with whether Control was held.
#[derive(Debug, Clone, Copy, PartialEq, Eq, Structural)]
pub struct KeyInput {
    pub code: KeyCode,
    pub control: bool,
}

#[derive(Debug, Clone, Copy, PartialEq, Eq, Structural)]
pub enum MouseKind {
    LeftDown,
    ScrollUp,
    ScrollDown,
    Other,
}

/// A mouse event at a cell.
#[derive(Debug, Clone, Copy, PartialEq, Eq, Structural)]
pub struct MouseInput {
    pub kind: MouseKind,
    pub column: u16,
    pub row: u16,
}

/// The sidebar: the frozen catalogue, its rows, the search and the view state.
#[derive(Debug)]
pub struct SidebarApp {
    pub listed: ListedScripts,
    /// Catalogue index of the selected row.
    pub selected: usize,
    pub list_offset: usize,
    pub footer_offset: usize,
    pub run_intents: Vec<RunIntent>,
    pub inner: Rect,
    pub process_running: bool,
    pub workspace_id: String,
    pub launch_error: Option<AppError>,
    pub search: SearchState,
    pub theme: Theme,
    /// Stable identities in catalogue order; visible positions live in search.matches.
    pub rows: Vec<CatalogRow>,
    /// Roots of the expanded groups.
    pub expanded: Vec<String>,
}

/// Position of the first match, from `k` on, for the catalogue index.
pub open spec fn match_pos_from(m: Seq<FuzzyMatch>, index: int, k: int) -> Option<int>
    decreases m.len() - k,
{
    if k < 0 || k >= m.len() {
        None
    } else if m[k].index == index {
        Some(k)
    } else {
        match_pos_from(m, index, k + 1)
    }
}

/// Position of the first script, from `k` on, with the name.
pub open spec fn script_pos_from(scripts: Seq<Script>, name: Seq<char>, k: int) -> Option<int>
    decreases scripts.len() - k,
{
    if k < 0 || k >= scripts.len() {
        None
    } else if scripts[k].name@ == name {
        Some(k)
    } else {
        script_pos_from(scripts, name, k + 1)
    }
}

/// The root is among the expanded groups.
pub open spec fn is_expanded(expanded: Seq<String>, root: Seq<char>) -> bool {
    exists|i: int| 0 <= i < expanded.len() && (#[trigger] expanded[i])@ == root
}

/// Lines of a message wrapped at `width` columns, a line feed forcing a break.
pub open spec fn wrap_from(
    msg: Seq<char>,
    width: int,
    lines: Seq<Seq<char>>,
    line: Seq<char>,
    cells: int,
) -> Seq<Seq<char>>
    decreases msg.len(),
{
    if msg.len() == 0 {
        lines.push(line)
    } else {
        let ch = msg[0];
        let w = cell_width(ch) as int;
        let breaks = ch == '\n' || cells + w > width;
        let lines2 = if breaks {
            lines.push(line)
        } else {
            lines
        };
        let line2 = if breaks {
            Seq::empty()
        } else {
            line
        };
        let cells2 = if breaks {
            0
        } else {
            cells
        };
        let line3 = if ch != '\n' {
            line2.push(ch)
        } else {
            line2
        };
        let cells3 = if ch != '\n' {
            cells2 + w
        } else {
            cells2
        };
        wrap_from(msg.skip(1), width, lines2, line3, cells3)
    }
}

pub open spec fn wrap_all(msgs: Seq<Seq<char>>, width: int, lines: Seq<Seq<char>>) -> Seq<Seq<char>>
    decreases msgs.len(),
{
    if msgs.len() == 0 {
        lines
    } else {
        wrap_all(msgs.skip(1), width, wrap_from(msgs[0], width, lines, Seq::empty(), 0))
    }
}

/// The footer rows kept under the list: help first when there is room, the
/// wrapped messages, cut to the rows left after a header, one result and its
/// command.
pub open spec fn spec_status_lines(
    messages: Seq<Seq<char>>,
    width: int,
    height: int,
    editing: bool,
) -> Seq<Seq<char>> {
    let lines = wrap_all(messages, if width < 1 {
        1
    } else {
        width
    }, Seq::empty());
    let remaining = if height - 3 - (if editing {
        1int
    } else {
        0int
    }) < 0 {
        0
    } else {
        height - 3 - (if editing {
            1int
        } else {
            0int
        })
    };
    let with_help = if lines.len() == 0 {
        if remaining >= 1 {
            seq![FOOTER_HELP@]
        } else {
            lines
        }
    } else if remaining > lines.len() {
        seq![FOOTER_HELP@] + lines
    } else {
        lines
    };
    if with_help.len() > remaining {
        with_help.take(remaining)
    } else {
        with_help
    }
}

fn wrap_message(msg: &str, width: usize, lines: &mut Vec<String>)
    requires
        1 <= width <= u16::MAX,
    ensures
        seq_view(final(lines)@) == wrap_from(msg@, width as int, seq_view(old(lines)@), Seq::empty(), 0),
{
    let chars = chars_of(msg);
    let mut line = String::new();
    let mut cells: usize = 0;
    let ghost start = seq_view(lines@);
    let mut k: usize = 0;
    assert(chars@.skip(0) =~= chars@);
    while k < chars.len()
        invariant
            chars@ == msg@,
            k <= chars@.len(),
            1 <= width <= u16::MAX,
            cells <= width + 3,
            wrap_from(msg@, width as int, start, Seq::empty(), 0) == wrap_from(
                chars@.skip(k as int),
                width as int,
                seq_view(lines@),
                line@,
                cells as int,
            ),
        decreases chars.len() - k,
    {
        let ch = chars[k];
        let w: usize = match width_of_char(ch) {
            Some(w) => w,
            None => 0,
        };
        assert(w as nat == cell_width(ch));
        assert(chars@.skip(k as int)[0] == ch);
        assert(chars@.skip(k as int).skip(1) =~= chars@.skip(k + 1));
        if ch == '\n' || cells + w > width {
            let ghost before = lines@;
            let done = line;
            lines.push(done);
            assert(seq_view(lines@) =~= seq_view(before).push(done@));
            line = String::new();
            cells = 0;
        }
        if ch != '\n' {
            push_char(&mut line, ch);
            cells += w;
        }
        k += 1;
    }
    let ghost before = lines@;
    let done = line;
    lines.push(done);
    assert(seq_view(lines@) =~= seq_view(before).push(done@));
}

/// Texts by their characters.
pub open spec fn seq_view(v: Seq<String>) -> Seq<Seq<char>> {
    v.map_values(|s: String| s@)
}

impl SidebarApp {
    /// The catalogue, when it was read.
    pub open spec fn project(self) -> Option<ProjectCatalog> {
        match self.listed.catalog {
            Ok(p) => Some(p),
            Err(_) => None,
        }
    }

    /// The package of the selected row, else the first one.
    pub open spec fn spec_catalog(self) -> Option<PackageCatalog> {
        match self.listed.catalog {
            Err(_) => None,
            Ok(p) => {
                let by_row = if self.selected < self.rows@.len() {
                    spec_package(p, row_root(self.rows@[self.selected as int]))
                } else {
                    None
                };
                match by_row {
                    Some(c) => Some(c),
                    None => spec_first_package(p),
                }
            },
        }
    }

    pub fn catalog(&self) -> (r: Option<&PackageCatalog>)
        ensures
            match r {
                Some(c) => self.spec_catalog() == Some(*c),
                None => self.spec_catalog() is None,
            },
    {
        let project = match &self.listed.catalog {
            Ok(p) => p,
            Err(_) => {
                return None;
            },
        };
        if self.selected < self.rows.len() {
            if let Some(c) = project.package(self.rows[self.selected].package_root()) {
                return Some(c);
            }
        }
        project.first_package()
    }

    pub fn workspace(&self) -> (r: Option<&WorkspaceCatalog>)
        ensures
            match r {
                Some(w) => self.listed.catalog == Ok::<ProjectCatalog, AppError>(
                    ProjectCatalog::Workspace(*w),
                ),
                None => !(self.listed.catalog matches Ok(ProjectCatalog::Workspace(_))),
            },
    {
        match &self.listed.catalog {
            Ok(ProjectCatalog::Workspace(w)) => Some(w),
            _ => None,
        }
    }

    /// The script a row stands for, as the catalogue declares it.
    pub open spec fn spec_row_script(self, index: int) -> Option<Script> {
        if 0 <= index < self.rows@.len() {
            match self.rows@[index] {
                CatalogRow::Script(intent) => match self.project() {
                    Some(p) => match spec_package(p, intent.package_root@) {
                        Some(c) => match script_pos_from(c.scripts@, intent.script_name@, 0) {
                            Some(k) => Some(c.scripts@[k]),
                            None => None,
                        },
                        None => None,
                    },
                    None => None,
                },
                CatalogRow::Group(_) => None,
            }
        } else {
            None
        }
    }

    pub fn row_script(&self, index: usize) -> (r: Option<&Script>)
        ensures
            match r {
                Some(s) => self.spec_row_script(index as int) == Some(*s),
                None => self.spec_row_script(index as int) is None,
            },
    {
        if index >= self.rows.len() {
            return None;
        }
        let intent = match &self.rows[index] {
            CatalogRow::Script(intent) => intent,
            CatalogRow::Group(_) => {
                return None;
            },
        };
        let project = match &self.listed.catalog {
            Ok(p) => p,
            Err(_) => {
                return None;
            },
        };
        let package = match project.package(intent.package_root.as_str()) {
            Some(c) => c,
            None => {
                return None;
            },
        };
        let mut k: usize = 0;
        while k < package.scripts.len()
            invariant
                k <= package.scripts@.len(),
                self.spec_row_script(index as int) == match script_pos_from(
                    package.scripts@,
                    intent.script_name@,
                    k as int,
                ) {
                    Some(j) => Some(package.scripts@[j]),
                    None => None::<Script>,
                },
            decreases package.scripts.len() - k,
        {
            if same_text(package.scripts[k].name.as_str(), intent.script_name.as_str()) {
                return Some(&package.scripts[k]);
            }
            k += 1;
        }
        None
    }

    /// A group shows its scripts while a filter is typed or once expanded.
    pub open spec fn spec_group_open(self, root: Seq<char>) -> bool {
        self.search.query@.len() > 0 || is_expanded(self.expanded@, root)
    }

    pub fn group_is_open(&self, root: &str) -> (r: bool)
        ensures
            r == self.spec_group_open(root@),
    {
        if !self.search.query.as_str().is_empty() {
            return true;
        }
        let mut i: usize = 0;
        while i < self.expanded.len()
            invariant
                i <= self.expanded@.len(),
                forall|t: int| 0 <= t < i ==> (#[trigger] self.expanded@[t])@ != root@,
            decreases self.expanded.len() - i,
        {
            if same_text(self.expanded[i].as_str(), root) {
                return true;
            }
            i += 1;
        }
        false
    }

    pub open spec fn spec_too_small(self) -> bool {
        self.inner.width < MIN_INNER_COLS || self.inner.height < MIN_INNER_ROWS
    }

    pub fn too_small(&self) -> (r: bool)
        ensures
            r == self.spec_too_small(),
    {
        self.inner.width < MIN_INNER_COLS || self.inner.height < MIN_INNER_ROWS
    }

    pub open spec fn spec_search_available(self) -> bool {
        self.listed.catalog is Ok && !self.spec_too_small()
    }

    pub fn search_available(&self) -> (r: bool)
        ensures
            r == self.spec_search_available(),
    {
        self.listed.catalog.is_ok() && !self.too_small()
    }

    pub fn visible_len(&self) -> (r: usize)
        ensures
            r == self.search.matches@.len(),
    {
        self.search.matches.len()
    }

    pub open spec fn spec_visible_pos(self, catalog_index: int) -> Option<int> {
        match_pos_from(self.search.matches@, catalog_index, 0)
    }

    pub fn visible_pos(&self, catalog_index: usize) -> (r: Option<usize>)
        ensures
            match r {
                Some(p) => self.spec_visible_pos(catalog_index as int) == Some(p as int)
                    && p < self.search.matches@.len(),
                None => self.spec_visible_pos(catalog_index as int) is None,
            },
    {
        let mut k: usize = 0;
        while k < self.search.matches.len()
            invariant
                k <= self.search.matches@.len(),
                match_pos_from(self.search.matches@, catalog_index as int, 0) == match_pos_from(
                    self.search.matches@,
                    catalog_index as int,
                    k as int,
                ),
            decreases self.search.matches.len() - k,
        {
            if self.search.matches[k].index == catalog_index {
                return Some(k);
            }
            k += 1;
        }
        None
    }

    pub fn catalog_at_visible(&self, visible: usize) -> (r: Option<usize>)
        ensures
            match r {
                Some(i) => visible < self.search.matches@.len() && i == self.search.matches@[visible as int].index,
                None => visible >= self.search.matches@.len(),
            },
    {
        if visible < self.search.matches.len() {
            Some(self.search.matches[visible].index)
        } else {
            None
        }
    }

    pub fn no_match_message(&self) -> (r: Option<String>)
        ensures
            match r {
                Some(m) => self.search.query@.len() > 0 && self.search.matches@.len() == 0 && m@
                    == "No script matches \""@ + self.search.query@ + "\""@,
                None => self.search.query@.len() == 0 || self.search.matches@.len() > 0,
            },
    {
        if self.search.query.as_str().is_empty() || self.search.matches.len() > 0 {
            return None;
        }
        let mut m = owned("No script matches \"");
        m.append(self.search.query.as_str());
        m.append("\"");
        Some(m)
    }

    /// The selected script, when the selection is a visible script row.
    pub open spec fn spec_selected_script(self) -> Option<Script> {
        if self.spec_visible_pos(self.selected as int) is Some {
            self.spec_row_script(self.selected as int)
        } else {
            None
        }
    }

    pub fn selected_script(&self) -> (r: Option<&Script>)
        ensures
            match r {
                Some(s) => self.spec_selected_script() == Some(*s),
                None => self.spec_selected_script() is None,
            },
    {
        if self.visible_pos(self.selected).is_none() {
            return None;
        }
        self.row_script(self.selected)
    }

    /// The scripts of the package shown, or none.
    pub fn scripts(&self) -> (r: &[Script])
        ensures
            match self.spec_catalog() {
                Some(c) => r@ == c.scripts@,
                None => r@.len() == 0,
            },
    {
        match self.catalog() {
            Some(c) => c.scripts.as_slice(),
            None => &[],
        }
    }

    pub fn notes(&self) -> (r: Vec<String>)
        ensures
            seq_view(r@) == (if self.listed.used_start_cwd {
                seq![CWD_FALLBACK_NOTE@]
            } else {
                Seq::empty()
            }),
    {
        let mut notes: Vec<String> = Vec::new();
        if self.listed.used_start_cwd {
            notes.push(owned(CWD_FALLBACK_NOTE));
        }
        assert(seq_view(notes@) =~= (if self.listed.used_start_cwd {
            seq![CWD_FALLBACK_NOTE@]
        } else {
            Seq::<Seq<char>>::empty()
        }));
        notes
    }

    pub fn error_message(&self) -> (r: Option<String>)
        ensures
            match self.listed.catalog {
                Err(e) => r is Some && r->0@ == error_text(e),
                Ok(_) => if self.spec_too_small() {
                    r is Some && r->0@ == error_text(AppError::TerminalTooSmall)
                } else {
                    match self.launch_error {
                        Some(e) => r is Some && r->0@ == error_text(e),
                        None => r is None,
                    }
                },
            },
    {
        match &self.listed.catalog {
            Err(e) => Some(e.message()),
            Ok(_) => if self.too_small() {
                Some(AppError::TerminalTooSmall.message())
            } else {
                match &self.launch_error {
                    Some(e) => Some(e.message()),
                    None => None,
                }
            },
        }
    }

    /// The messages under the list: the launch error, then the notes.
    pub open spec fn status_messages(self) -> Seq<Seq<char>> {
        let notes = if self.listed.used_start_cwd {
            seq![CWD_FALLBACK_NOTE@]
        } else {
            Seq::empty()
        };
        match self.launch_error {
            Some(e) => seq![error_text(e)] + notes,
            None => notes,
        }
    }

    pub open spec fn spec_status_lines(self) -> Seq<Seq<char>> {
        spec_status_lines(
            self.status_messages(),
            self.inner.width as int,
            self.inner.height as int,
            self.search.mode == SearchMode::Editing,
        )
    }

    /// The queued launches, taken out of the queue; a catalogue that could not
    /// be read launches nothing and keeps the queue.
    pub fn take_intents(&mut self) -> (r: Option<Vec<RunIntent>>)
        ensures
            old(self).listed.catalog is Err ==> r is None && *final(self) == *old(self),
            old(self).listed.catalog is Ok ==> r == Some(old(self).run_intents) && final(self).run_intents@.len() == 0
                && *final(self) == (SidebarApp { run_intents: final(self).run_intents, ..*old(self) }),
    {
        if self.listed.catalog.is_err() {
            return None;
        }
        let mut taken: Vec<RunIntent> = Vec::new();
        std::mem::swap(&mut taken, &mut self.run_intents);
        Some(taken)
    }

    /// The outcome of the last launch of a batch: a success clears the launch
    /// error, a failure shows it.
    pub fn record_launch(&mut self, outcome: Result<(), AppError>)
        ensures
            *final(self) == (SidebarApp {
                launch_error: match outcome {
                    Ok(()) => None,
                    Err(e) => Some(e),
                },
                ..*old(self)
            }),
    {
        self.launch_error = match outcome {
            Ok(()) => None,
            Err(e) => Some(e),
        };
    }

    /// The status rows never take more rows than the pane leaves under the
    /// header, the search field, one list row and the footer; with nothing to
    /// report they are the key help alone, when it fits.
    pub proof fn lemma_status_lines_fit(self)
        ensures
            ({
                let room = self.inner.height as int - 3 - (if self.search.mode == SearchMode::Editing { 1int } else { 0int });
                &&& self.spec_status_lines().len() <= (if room < 0 { 0 } else { room })
                &&& self.launch_error is None && !self.listed.used_start_cwd && room >= 1
                    ==> self.spec_status_lines() == seq![FOOTER_HELP@]
            }),
    {
        let msgs = self.status_messages();
        if self.launch_error is None && !self.listed.used_start_cwd {
            assert(msgs =~= Seq::<Seq<char>>::empty());
        }
    }

    /// Reserve visible footer rows for launch errors and cwd fallback notices.
    pub fn status_lines(&self) -> (r: Vec<String>)
        ensures
            seq_view(r@) == self.spec_status_lines(),
    {
        let mut messages: Vec<String> = Vec::new();
        if let Some(e) = &self.launch_error {
            messages.push(e.message());
        }
        let mut notes = self.notes();
        messages.append(&mut notes);
        assert(seq_view(messages@) =~= self.status_messages());
        let width: usize = if self.inner.width < 1 {
            1
        } else {
            self.inner.width as usize
        };
        let mut lines: Vec<String> = Vec::new();
        let mut i: usize = 0;
        let ghost msgs = seq_view(messages@);
        assert(seq_view(lines@) =~= Seq::<Seq<char>>::empty());
        assert(msgs.skip(0) =~= msgs);
        while i < messages.len()
            invariant
                i <= messages@.len(),
                1 <= width <= u16::MAX,
                msgs == seq_view(messages@),
                wrap_all(msgs, width as int, Seq::empty()) == wrap_all(
                    msgs.skip(i as int),
                    width as int,
                    seq_view(lines@),
                ),
            decreases messages.len() - i,
        {
            assert(msgs.skip(i as int)[0] == messages@[i as int]@);
            assert(msgs.skip(i as int).skip(1) =~= msgs.skip(i + 1));
            wrap_message(messages[i].as_str(), width, &mut lines);
            i += 1;
        }
        let search_h: u16 = if self.search.is_editing() {
            1
        } else {
            0
        };
        let remaining: usize = self.inner.height.saturating_sub(3 + search_h) as usize;
        if lines.len() == 0 {
            if remaining >= 1 {
                lines.push(owned(FOOTER_HELP));
            }
        } else if remaining > lines.len() {
            lines.insert(0, owned(FOOTER_HELP));
        }
        let ghost before = seq_view(lines@);
        lines.truncate(remaining);
        assert(seq_view(lines@) =~= (if before.len() > remaining {
            before.take(remaining as int)
        } else {
            before
        }));
        assert(seq_view(lines@) =~= self.spec_status_lines()) by {
            let lw = wrap_all(msgs, width as int, Seq::empty());
            if lw.len() > 0 && remaining > lw.len() {
                assert(before =~= seq![FOOTER_HELP@] + lw);
            }
        }
        lines
    }

    /// Columns of the header's search glyph.
    pub open spec fn spec_magnifier_cols(self) -> int {
        clamp_cols(text_width(self.theme.icons.search@) as int)
    }

    pub open spec fn spec_layout(self) -> ColumnGeometry {
        spec_layout(
            self.inner,
            self.spec_status_lines().len() as int,
            self.search.mode == SearchMode::Editing,
            self.spec_search_available(),
            self.spec_magnifier_cols(),
        )
    }

    pub fn layout(&self) -> (r: ColumnGeometry)
        ensures
            r == self.spec_layout(),
    {
        let lines = self.status_lines();
        let available = self.search_available();
        column_layout(
            self.inner,
            lines.len(),
            self.search.is_editing(),
            available,
            self.theme.magnifier_cols(),
        )
    }

    pub open spec fn spec_list_height(self) -> int {
        self.spec_layout().list.height as int
    }

    pub fn list_height(&self) -> (r: usize)
        ensures
            r as int == self.spec_list_height(),
    {
        self.layout().list.height as usize
    }
}

/// The two states hold the same catalogue, rows, search and settings; only
/// the selection and the offsets may differ.
pub open spec fn same_content(a: SidebarApp, b: SidebarApp) -> bool {
    &&& a.listed == b.listed
    &&& a.run_intents == b.run_intents
    &&& a.inner == b.inner
    &&& a.process_running == b.process_running
    &&& a.workspace_id == b.workspace_id
    &&& a.launch_error == b.launch_error
    &&& a.search == b.search
    &&& a.theme == b.theme
    &&& a.rows == b.rows
    &&& a.expanded == b.expanded
}

/// The first row of the list that keeps `pos` on screen, moving as little
/// as possible from `offset`.
pub open spec fn offset_showing(offset: int, pos: Option<int>, height: int) -> int {
    if height == 0 {
        0
    } else {
        match pos {
            None => 0,
            Some(p) => if p < offset {
                p
            } else if p >= offset + height {
                p + 1 - height
            } else {
                offset
            },
        }
    }
}

/// A copy of an intent.
pub fn copy_intent(intent: &RunIntent) -> (r: RunIntent)
    ensures
        r == *intent,
{
    RunIntent {
        package_root: copy_string(&intent.package_root),
        script_name: copy_string(&intent.script_name),
    }
}

impl SidebarApp {
    /// Every visible entry names a row.
    pub open spec fn well_formed(self) -> bool {
        forall|k: int|
            0 <= k < self.search.matches@.len() ==> (#[trigger] self.search.matches@[k]).index
                < self.rows@.len()
    }

    pub fn ensure_visible(&mut self)
        ensures
            same_content(*old(self), *final(self)),
            final(self).selected == old(self).selected,
            final(self).footer_offset == old(self).footer_offset,
            final(self).list_offset == offset_showing(
                old(self).list_offset as int,
                old(self).spec_visible_pos(old(self).selected as int),
                old(self).spec_list_height(),
            ),
    {
        let height = self.list_height();
        if height == 0 {
            self.list_offset = 0;
            return;
        }
        let pos = match self.visible_pos(self.selected) {
            Some(p) => p,
            None => {
                self.list_offset = 0;
                return;
            },
        };
        if pos < self.list_offset {
            self.list_offset = pos;
        } else if pos - self.list_offset >= height {
            self.list_offset = pos - (height - 1);
        }
    }

    pub fn clamp_list_offset(&mut self)
        ensures
            same_content(*old(self), *final(self)),
            final(self).selected == old(self).selected,
            final(self).footer_offset == old(self).footer_offset,
            final(self).list_offset == (if old(self).list_offset > spec_max_offset(
                old(self).search.matches@.len() as int,
                old(self).spec_list_height(),
            ) {
                spec_max_offset(old(self).search.matches@.len() as int, old(self).spec_list_height())
            } else {
                old(self).list_offset as int
            }),
    {
        let max = max_list_offset(self.visible_len(), self.list_height());
        if self.list_offset > max {
            self.list_offset = max;
        }
    }

    /// The mouse wheel scrolls the list without moving the selection.
    pub fn scroll_list(&mut self, delta: isize)
        ensures
            same_content(*old(self), *final(self)),
            final(self).selected == old(self).selected,
            final(self).footer_offset == old(self).footer_offset,
            final(self).list_offset == clamp_int(
                old(self).list_offset + delta,
                0,
                spec_max_offset(old(self).search.matches@.len() as int, old(self).spec_list_height()),
            ),
    {
        let height = self.list_height();
        self.list_offset = bounded_list_offset(self.list_offset, delta, self.visible_len(), height);
    }

    /// The row a move of `delta` visible rows lands on, clamped to the list.
    pub open spec fn spec_move_target(self, delta: int) -> int {
        let len = self.search.matches@.len() as int;
        let pos = match self.spec_visible_pos(self.selected as int) {
            Some(p) => p,
            None => 0,
        };
        self.search.matches@[clamp_int(pos + delta, 0, len - 1)].index as int
    }

    /// Move the selection by `delta` visible rows, stopping at both ends.
    pub fn move_selection(&mut self, delta: isize)
        requires
            old(self).well_formed(),
        ensures
            same_content(*old(self), *final(self)),
            old(self).search.matches@.len() == 0 ==> *final(self) == *old(self),
            old(self).search.matches@.len() > 0 ==> {
                let target = old(self).spec_move_target(delta as int);
                &&& final(self).selected == target
                &&& final(self).footer_offset == (if target != old(self).selected {
                    0
                } else {
                    old(self).footer_offset as int
                })
                &&& final(self).list_offset == offset_showing(
                    old(self).list_offset as int,
                    old(self).spec_visible_pos(target),
                    old(self).spec_list_height(),
                )
            },
    {
        let len = self.visible_len();
        if len == 0 {
            return;
        }
        let pos: usize = match self.visible_pos(self.selected) {
            Some(p) => p,
            None => 0,
        };
        let wanted: i128 = pos as i128 + delta as i128;
        let next: usize = if wanted < 0 {
            0
        } else if wanted > (len - 1) as i128 {
            len - 1
        } else {
            wanted as usize
        };
        let target = self.search.matches[next].index;
        if target != self.selected {
            self.selected = target;
            self.footer_offset = 0;
        }
        self.ensure_visible();
    }

    /// Select a visible row; a row that is not visible changes nothing.
    pub fn select_index(&mut self, index: usize)
        ensures
            same_content(*old(self), *final(self)),
            old(self).spec_visible_pos(index as int) is None ==> *final(self) == *old(self),
            old(self).spec_visible_pos(index as int) is Some ==> {
                &&& final(self).selected == index
                &&& final(self).footer_offset == (if index != old(self).selected {
                    0
                } else {
                    old(self).footer_offset as int
                })
                &&& final(self).list_offset == offset_showing(
                    old(self).list_offset as int,
                    old(self).spec_visible_pos(index as int),
                    old(self).spec_list_height(),
                )
            },
    {
        if self.visible_pos(index).is_some() {
            if self.selected != index {
                self.footer_offset = 0;
            }
            self.selected = index;
            self.ensure_visible();
        }
    }

    /// Scroll the footer by `delta` columns, never before its start.
    pub fn scroll_footer(&mut self, delta: isize)
        ensures
            same_content(*old(self), *final(self)),
            final(self).selected == old(self).selected,
            final(self).list_offset == old(self).list_offset,
            final(self).footer_offset == clamp_int(old(self).footer_offset + delta, 0, usize::MAX as int),
    {
        let next: i128 = self.footer_offset as i128 + delta as i128;
        self.footer_offset = if next < 0 {
            0
        } else if next > usize::MAX as i128 {
            usize::MAX
        } else {
            next as usize
        };
    }

    /// Queue the selected script for launch; groups, a too-small pane or a
    /// catalogue that could not be read launch nothing.
    pub fn emit_run(&mut self)
        ensures
            old(self).spec_too_small() || old(self).listed.catalog is Err ==> *final(self) == *old(self),
            !(old(self).spec_too_small() || old(self).listed.catalog is Err) ==> {
                &&& final(self).listed == old(self).listed
                &&& final(self).search == old(self).search
                &&& final(self).rows == old(self).rows
                &&& final(self).expanded == old(self).expanded
                &&& final(self).selected == old(self).selected
                &&& final(self).inner == old(self).inner
                &&& final(self).launch_error == old(self).launch_error
                &&& final(self).list_offset == offset_showing(
                    old(self).list_offset as int,
                    old(self).spec_visible_pos(old(self).selected as int),
                    old(self).spec_list_height(),
                )
                &&& final(self).run_intents@ == if old(self).spec_selected_script() is Some
                    && old(self).rows@[old(self).selected as int] is Script {
                    old(self).run_intents@.push(old(self).rows@[old(self).selected as int]->Script_0)
                } else {
                    old(self).run_intents@
                }
            },
    {
        if self.too_small() || self.listed.catalog.is_err() {
            return;
        }
        self.ensure_visible();
        if self.selected_script().is_some() {
            if let CatalogRow::Script(intent) = &self.rows[self.selected] {
                let copy = copy_intent(intent);
                self.run_intents.push(copy);
            }
        }
    }

    pub fn set_inner(&mut self, inner: Rect)
        ensures
            final(self).inner == inner,
            ({
                let resized = SidebarApp { inner: inner, ..*old(self) };
                if inner.width != old(self).inner.width || inner.height != old(self).inner.height {
                    final(self).list_offset == offset_showing(
                        old(self).list_offset as int,
                        resized.spec_visible_pos(old(self).selected as int),
                        resized.spec_list_height(),
                    )
                } else {
                    final(self).list_offset == (if old(self).list_offset > spec_max_offset(
                        old(self).search.matches@.len() as int,
                        resized.spec_list_height(),
                    ) {
                        spec_max_offset(old(self).search.matches@.len() as int, resized.spec_list_height())
                    } else {
                        old(self).list_offset as int
                    })
                }
            }),
            final(self).selected == old(self).selected,
            final(self).footer_offset == old(self).footer_offset,
            final(self).search == old(self).search,
            final(self).rows == old(self).rows,
            final(self).listed == old(self).listed,
            final(self).expanded == old(self).expanded,
            final(self).run_intents == old(self).run_intents,
            final(self).launch_error == old(self).launch_error,
    {
        let size_changed = inner.width != self.inner.width || inner.height != self.inner.height;
        self.inner = inner;
        if size_changed {
            self.ensure_visible();
        } else {
            self.clamp_list_offset();
        }
    }

    /// The catalogue row under a cell of the list.
    pub fn row_at(&self, column: u16, row: u16) -> (r: Option<usize>)
        ensures
            match r {
                Some(i) => {
                    let g = self.spec_layout();
                    &&& g.list.holds(column as int, row as int)
                    &&& self.list_offset + (row - g.list.y) < self.search.matches@.len()
                    &&& i == self.search.matches@[self.list_offset + (row - g.list.y)].index
                },
                None => {
                    let g = self.spec_layout();
                    !g.list.holds(column as int, row as int) || self.list_offset + (row - g.list.y)
                        >= self.search.matches@.len()
                },
            },
    {
        let geo = self.layout();
        match geo.script_index(column, row, self.list_offset, self.visible_len()) {
            Some(visible) => self.catalog_at_visible(visible),
            None => None,
        }
    }

    /// Open the search field, when the catalogue can be searched.
    pub fn open_search(&mut self)
        ensures
            !old(self).spec_search_available() ==> *final(self) == *old(self),
            old(self).spec_search_available() ==> {
                &&& final(self).search.mode == SearchMode::Editing
                &&& final(self).run_intents == old(self).run_intents
                &&& final(self).search.query == old(self).search.query
                &&& final(self).search.matches == old(self).search.matches
                &&& final(self).selected == old(self).selected
                &&& final(self).rows == old(self).rows
                &&& final(self).listed == old(self).listed
                &&& final(self).expanded == old(self).expanded
                &&& final(self).footer_offset == old(self).footer_offset
            },
    {
        if !self.search_available() {
            return;
        }
        self.search.mode = SearchMode::Editing;
        self.ensure_visible();
    }

    /// The first visible script row, in visible order.
    pub open spec fn spec_first_visible_script(self) -> Option<int> {
        first_script_match_from(self.search.matches@, self.rows@, 0)
    }

    fn first_visible_script(&self) -> (r: Option<usize>)
        requires
            self.well_formed(),
        ensures
            match r {
                Some(i) => self.spec_first_visible_script() == Some(i as int),
                None => self.spec_first_visible_script() is None,
            },
    {
        let mut k: usize = 0;
        while k < self.search.matches.len()
            invariant
                self.well_formed(),
                k <= self.search.matches@.len(),
                self.spec_first_visible_script() == first_script_match_from(
                    self.search.matches@,
                    self.rows@,
                    k as int,
                ),
            decreases self.search.matches.len() - k,
        {
            let index = self.search.matches[k].index;
            if let CatalogRow::Script(_) = &self.rows[index] {
                return Some(index);
            }
            k += 1;
        }
        None
    }

    /// Enter applies the filter and selects its first script.
    fn apply_search(&mut self)
        requires
            old(self).well_formed(),
        ensures
            final(self).search.mode == SearchMode::Applied,
            final(self).run_intents == old(self).run_intents,
            final(self).search.query == old(self).search.query,
            final(self).search.matches == old(self).search.matches,
            final(self).rows == old(self).rows,
            final(self).listed == old(self).listed,
            final(self).expanded == old(self).expanded,
            final(self).selected == match old(self).spec_first_visible_script() {
                Some(i) => i,
                None => old(self).selected as int,
            },
    {
        self.search.mode = SearchMode::Applied;
        if let Some(first) = self.first_visible_script() {
            self.selected = first;
            self.list_offset = 0;
            self.footer_offset = 0;
        }
        self.ensure_visible();
    }
}

/// The catalogue index of the first visible script row, from position `k` on.
pub open spec fn first_script_match_from(m: Seq<FuzzyMatch>, rows: Seq<CatalogRow>, k: int) -> Option<int>
    decreases m.len() - k,
{
    if k < 0 || k >= m.len() {
        None
    } else if 0 <= m[k].index < rows.len() && rows[m[k].index as int] is Script {
        Some(m[k].index as int)
    } else {
        first_script_match_from(m, rows, k + 1)
    }
}

/// The nearest group row at or before `i`.
pub open spec fn group_before(rows: Seq<CatalogRow>, i: int) -> Option<int>
    decreases i + 1,
{
    if i < 0 || i >= rows.len() {
        None
    } else if rows[i] is Group {
        Some(i)
    } else {
        group_before(rows, i - 1)
    }
}

/// The first group row at or after `k`, or the end of the rows.
pub open spec fn next_group(rows: Seq<CatalogRow>, k: int) -> int
    decreases rows.len() - k,
{
    if k >= rows.len() {
        rows.len() as int
    } else if k >= 0 && rows[k] is Group {
        k
    } else {
        next_group(rows, k + 1)
    }
}

/// The name of a script row.
pub open spec fn script_name(row: CatalogRow) -> Seq<char> {
    match row {
        CatalogRow::Script(intent) => intent.script_name@,
        CatalogRow::Group(_) => Seq::empty(),
    }
}

/// A row is shown for a query: a group while the query is empty or one of its
/// scripts matches; a script that matches, under no group or an open one.
pub open spec fn row_visible(rows: Seq<CatalogRow>, query: Seq<char>, expanded: Seq<String>, i: int) -> bool {
    match rows[i] {
        CatalogRow::Group(_) => query.len() == 0 || exists|j: int|
            i < j < next_group(rows, i + 1) && (#[trigger] name_score(script_name(rows[j]), query))
                is Some,
        CatalogRow::Script(intent) => name_score(intent.script_name@, query) is Some && match group_before(
            rows,
            i,
        ) {
            None => true,
            Some(g) => query.len() > 0 || is_expanded(expanded, row_root(rows[g])),
        },
    }
}

/// A visible entry names a shown row, with the highlight of its match.
pub open spec fn entry_ok(rows: Seq<CatalogRow>, query: Seq<char>, expanded: Seq<String>, e: FuzzyMatch) -> bool {
    &&& e.index < rows.len()
    &&& row_visible(rows, query, expanded, e.index as int)
    &&& match rows[e.index as int] {
        CatalogRow::Group(_) => e.positions@.len() == 0,
        CatalogRow::Script(intent) => as_ints(e.positions@) == (name_score(intent.script_name@, query)->0).2,
    }
}

/// The group a row sits under, as a number that orders the groups; rows
/// before any group come first.
pub open spec fn seg_key(rows: Seq<CatalogRow>, i: int) -> int {
    match group_before(rows, i) {
        Some(g) => g,
        None => -1,
    }
}

/// Shown rows keep the group order; within a group, the header comes first,
/// then its scripts by rank, window and catalogue order.
pub open spec fn shown_before(rows: Seq<CatalogRow>, query: Seq<char>, a: int, b: int) -> bool {
    let ka = seg_key(rows, a);
    let kb = seg_key(rows, b);
    ka < kb || (ka == kb && ((rows[a] is Group && a != b) || (rows[a] is Script && rows[b] is Script
        && {
        let sa = name_score(script_name(rows[a]), query)->0;
        let sb = name_score(script_name(rows[b]), query)->0;
        key_lt(sa.0, sa.1, a, sb.0, sb.1, b)
    })))
}

/// The list of shown rows for a query and a set of open groups.
pub open spec fn is_shown_list(
    rows: Seq<CatalogRow>,
    query: Seq<char>,
    expanded: Seq<String>,
    r: Seq<FuzzyMatch>,
) -> bool {
    &&& forall|k: int| 0 <= k < r.len() ==> entry_ok(rows, query, expanded, #[trigger] r[k])
    &&& forall|i: int|
        0 <= i < rows.len() && row_visible(rows, query, expanded, i) ==> exists|k: int|
            0 <= k < r.len() && (#[trigger] r[k]).index == i
    &&& forall|k1: int, k2: int|
        #![trigger r[k1], r[k2]]
        0 <= k1 < k2 < r.len() ==> shown_before(rows, query, r[k1].index as int, r[k2].index as int)
}

proof fn lemma_next_group_bounds(rows: Seq<CatalogRow>, a: int)
    requires
        0 <= a <= rows.len(),
    ensures
        a <= next_group(rows, a) <= rows.len(),
        next_group(rows, a) < rows.len() ==> rows[next_group(rows, a)] is Group,
    decreases rows.len() - a,
{
    if a < rows.len() && !(rows[a] is Group) {
        lemma_next_group_bounds(rows, a + 1);
    }
}

proof fn lemma_scripts_before_next_group(rows: Seq<CatalogRow>, a: int, k: int)
    requires
        0 <= a <= k < next_group(rows, a),
        k < rows.len(),
    ensures
        rows[k] is Script,
        group_before(rows, k) == group_before(rows, a - 1),
    decreases k - a,
{
    if k > a {
        assert(!(rows[a] is Group));
        lemma_scripts_before_next_group(rows, a + 1, k);
        lemma_no_group_between(rows, a, k);
        lemma_group_before_walk(rows, a, k);
    } else {
        assert(!(rows[a] is Group));
    }
}

proof fn lemma_group_before_walk(rows: Seq<CatalogRow>, a: int, k: int)
    requires
        0 <= a <= k < rows.len(),
        forall|t: int| a <= t <= k ==> !(#[trigger] rows[t] is Group),
    ensures
        group_before(rows, k) == group_before(rows, a - 1),
    decreases k - a,
{
    if k > a {
        lemma_group_before_walk(rows, a, k - 1);
    }
}

proof fn lemma_no_group_between(rows: Seq<CatalogRow>, a: int, k: int)
    requires
        0 <= a <= k < next_group(rows, a),
        k < rows.len(),
    ensures
        forall|t: int| a <= t <= k ==> !(#[trigger] rows[t] is Group),
    decreases k - a,
{
    assert(!(rows[a] is Group));
    if k > a {
        lemma_no_group_between(rows, a + 1, k);
    }
}

fn copy_usizes(v: &Vec<usize>) -> (r: Vec<usize>)
    ensures
        r@ == v@,
{
    let mut out: Vec<usize> = Vec::new();
    let mut i: usize = 0;
    while i < v.len()
        invariant
            i <= v@.len(),
            out@ == v@.take(i as int),
        decreases v.len() - i,
    {
        out.push(v[i]);
        i += 1;
        assert(out@ =~= v@.take(i as int));
    }
    assert(v@.take(v@.len() as int) =~= v@);
    out
}

fn root_expanded(expanded: &Vec<String>, root: &str) -> (r: bool)
    ensures
        r == is_expanded(expanded@, root@),
{
    let mut i: usize = 0;
    while i < expanded.len()
        invariant
            i <= expanded@.len(),
            forall|t: int| 0 <= t < i ==> (#[trigger] expanded@[t])@ != root@,
        decreases expanded.len() - i,
    {
        if same_text(expanded[i].as_str(), root) {
            return true;
        }
        i += 1;
    }
    false
}

/// The shown rows: for each group, its header while the query is empty or
/// matches one of its scripts, then its matching scripts while it is open.
#[verifier::rlimit(100)]
pub fn filter_rows(rows: &Vec<CatalogRow>, query: &str, expanded: &Vec<String>) -> (r: Vec<FuzzyMatch>)
    ensures
        is_shown_list(rows@, query@, expanded@, r@),
{
    let mut visible: Vec<FuzzyMatch> = Vec::new();
    let mut start: usize = 0;
    let query_empty = query.unicode_len() == 0;
    while start < rows.len()
        invariant
            start <= rows@.len(),
            start == 0 || start == rows@.len() || rows@[start as int] is Group,
            query_empty == (query@.len() == 0),
            forall|k: int| 0 <= k < visible@.len() ==> entry_ok(rows@, query@, expanded@, #[trigger] visible@[k]),
            forall|k: int| 0 <= k < visible@.len() ==> (#[trigger] visible@[k]).index < start,
            forall|i: int|
                0 <= i < start && row_visible(rows@, query@, expanded@, i) ==> exists|k: int|
                    0 <= k < visible@.len() && (#[trigger] visible@[k]).index == i,
            forall|k1: int, k2: int|
                #![trigger visible@[k1], visible@[k2]]
                0 <= k1 < k2 < visible@.len() ==> shown_before(
                    rows@,
                    query@,
                    visible@[k1].index as int,
                    visible@[k2].index as int,
                ),
            start == 0 ==> visible@.len() == 0,
        decreases rows.len() - start,
    {
        let is_group = rows[start] matches CatalogRow::Group(_);
        let scripts_start: usize = if is_group {
            start + 1
        } else {
            start
        };
        let mut end: usize = scripts_start;
        while end < rows.len() && !(rows[end] matches CatalogRow::Group(_))
            invariant
                scripts_start <= end <= rows@.len(),
                next_group(rows@, scripts_start as int) == next_group(rows@, end as int),
            decreases rows.len() - end,
        {
            end += 1;
        }
        proof {
            lemma_next_group_bounds(rows@, scripts_start as int);
        }
        let mut names: Vec<&str> = Vec::new();
        let mut j: usize = scripts_start;
        while j < end
            invariant
                scripts_start <= j <= end <= rows@.len(),
                end as int == next_group(rows@, scripts_start as int),
                names@.len() == j - scripts_start,
                forall|t: int| 0 <= t < names@.len() ==> (#[trigger] names@[t])@ == script_name(rows@[scripts_start + t]),
            decreases end - j,
        {
            proof {
                lemma_scripts_before_next_group(rows@, scripts_start as int, j as int);
            }
            match &rows[j] {
                CatalogRow::Script(intent) => {
                    names.push(intent.script_name.as_str());
                },
                CatalogRow::Group(_) => {},
            }
            j += 1;
        }
        let matches = filter_names(names.as_slice(), query);
        proof {
            assert forall|t: int| scripts_start <= t < end implies #[trigger] group_before(rows@, t) == (if is_group {
                Some(start as int)
            } else {
                None::<int>
            }) && rows@[t] is Script by {
                lemma_scripts_before_next_group(rows@, scripts_start as int, t);
            }
        }
        let mut open = true;
        if is_group {
            let root = rows[start].package_root();
            let shown = query_empty || matches.len() > 0;
            proof {
                assert(group_before(rows@, start as int) == Some(start as int));
                if matches@.len() > 0 {
                    let m = matches@[0];
                    let t = scripts_start + m.index;
                    assert(name_score(names@[m.index as int]@, query@) is Some);
                    assert(name_score(script_name(rows@[t]), query@) is Some);
                    assert(row_visible(rows@, query@, expanded@, start as int));
                }
                if !shown {
                    assert forall|t: int|
                        start < t < next_group(rows@, start + 1) implies !(#[trigger] name_score(
                        script_name(rows@[t]),
                        query@,
                    ) is Some) by {
                        if name_score(script_name(rows@[t]), query@) is Some {
                            assert(name_score(names@[t - scripts_start]@, query@) is Some);
                        }
                    }
                    assert(!row_visible(rows@, query@, expanded@, start as int));
                }
            }
            if shown {
                let ghost before = visible@;
                visible.push(FuzzyMatch { index: start, positions: Vec::new() });
                proof {
                    assert(as_ints(Seq::<usize>::empty()) =~= Seq::<int>::empty());
                    assert(entry_ok(rows@, query@, expanded@, visible@[before.len() as int]));
                    assert forall|k1: int, k2: int| 0 <= k1 < k2 < visible@.len() implies shown_before(
                        rows@,
                        query@,
                        visible@[k1].index as int,
                        visible@[k2].index as int,
                    ) by {
                        if k2 == before.len() {
                            assert(visible@[k1] == before[k1]);
                            let a = before[k1].index as int;
                            assert(seg_key(rows@, a) <= a) by {
                                lemma_seg_key_le(rows@, a);
                            }
                        } else {
                            assert(visible@[k1] == before[k1]);
                            assert(visible@[k2] == before[k2]);
                        }
                    }
                    assert forall|k: int| 0 <= k < visible@.len() implies entry_ok(rows@, query@, expanded@, #[trigger] visible@[k]) by {
                        if k < before.len() {
                            assert(visible@[k] == before[k]);
                        }
                    }
                    assert forall|i: int|
                        0 <= i < start && row_visible(rows@, query@, expanded@, i) implies exists|k: int|
                            0 <= k < visible@.len() && (#[trigger] visible@[k]).index == i by {
                        let k0 = choose|k: int| 0 <= k < before.len() && (#[trigger] before[k]).index == i;
                        assert(visible@[k0] == before[k0]);
                    }
                }
            }
            open = !query_empty || root_expanded(expanded, root);
        }
        let ghost base = visible@;
        if open {
            let mut k: usize = 0;
            while k < matches.len()
                invariant
                    k <= matches@.len(),
                    names@.len() == end - scripts_start,
                    end <= rows@.len(),
                    forall|t: int| 0 <= t < matches@.len() ==> (#[trigger] matches@[t]).index < names@.len(),
                    visible@.len() == base.len() + k,
                    forall|t: int| 0 <= t < base.len() ==> visible@[t] == base[t],
                    forall|t: int| 0 <= t < k ==> (#[trigger] visible@[base.len() + t]).index == scripts_start + matches@[t].index
                        && visible@[base.len() + t].positions@ == matches@[t].positions@,
                decreases matches.len() - k,
            {
                let m = &matches[k];
                let entry = FuzzyMatch { index: scripts_start + m.index, positions: copy_usizes(&m.positions) };
                visible.push(entry);
                k += 1;
            }
        }
        proof {
            lemma_segment_done(
                rows@,
                query@,
                expanded@,
                names@,
                matches@,
                base,
                visible@,
                start as int,
                scripts_start as int,
                end as int,
                is_group,
                open,
            );
        }
        start = end;
    }
    visible
}

proof fn lemma_seg_key_le(rows: Seq<CatalogRow>, a: int)
    requires
        a >= -1,
    ensures
        seg_key(rows, a) <= a,
    decreases a + 1,
{
    if 0 <= a < rows.len() && !(rows[a] is Group) {
        lemma_seg_key_le(rows, a - 1);
    }
}

proof fn lemma_segment_done(
    rows: Seq<CatalogRow>,
    query: Seq<char>,
    expanded: Seq<String>,
    names: Seq<&str>,
    matches: Seq<FuzzyMatch>,
    base: Seq<FuzzyMatch>,
    visible: Seq<FuzzyMatch>,
    start: int,
    scripts_start: int,
    end: int,
    is_group: bool,
    open: bool,
)
    requires
        0 <= start < rows.len(),
        is_group == rows[start] is Group,
        scripts_start == if is_group { start + 1 } else { start },
        end == next_group(rows, scripts_start),
        scripts_start <= end <= rows.len(),
        end < rows.len() ==> rows[end] is Group,
        !is_group ==> start == 0 && base.len() == 0,
        names.len() == end - scripts_start,
        forall|t: int| 0 <= t < names.len() ==> (#[trigger] names[t])@ == script_name(rows[scripts_start + t]),
        forall|t: int| scripts_start <= t < end ==> #[trigger] group_before(rows, t) == (if is_group {
            Some(start)
        } else {
            None::<int>
        }) && rows[t] is Script,
        is_group ==> group_before(rows, start) == Some(start),
        is_group ==> (open == (query.len() > 0 || is_expanded(expanded, row_root(rows[start])))),
        !is_group ==> open,
        forall|j: int|
            0 <= j < matches.len() ==> {
                let m = #[trigger] matches[j];
                &&& m.index < names.len()
                &&& name_score(names[m.index as int]@, query) is Some
                &&& (name_score(names[m.index as int]@, query)->0).2 == as_ints(m.positions@)
            },
        forall|k: int|
            0 <= k < names.len() && (#[trigger] name_score(names[k]@, query)) is Some
                ==> exists|j: int| 0 <= j < matches.len() && matches[j].index == k,
        forall|j1: int, j2: int|
            #![trigger matches[j1], matches[j2]]
            0 <= j1 < j2 < matches.len() ==> {
                let s1 = name_score(names[matches[j1].index as int]@, query)->0;
                let s2 = name_score(names[matches[j2].index as int]@, query)->0;
                key_lt(s1.0, s1.1, matches[j1].index as int, s2.0, s2.1, matches[j2].index as int)
            },
        forall|k: int| 0 <= k < base.len() ==> entry_ok(rows, query, expanded, #[trigger] base[k]),
        forall|k: int| 0 <= k < base.len() ==> (#[trigger] base[k]).index < scripts_start,
        forall|k: int| 0 <= k < base.len() ==> (#[trigger] base[k]).index < start || base[k].index == start,
        forall|i: int|
            0 <= i < scripts_start && row_visible(rows, query, expanded, i) ==> exists|k: int|
                0 <= k < base.len() && (#[trigger] base[k]).index == i,
        forall|k1: int, k2: int|
            #![trigger base[k1], base[k2]]
            0 <= k1 < k2 < base.len() ==> shown_before(rows, query, base[k1].index as int, base[k2].index as int),
        is_group && !open ==> visible == base,
        open ==> visible.len() == base.len() + matches.len(),
        open ==> forall|t: int| 0 <= t < base.len() ==> visible[t] == base[t],
        open ==> forall|t: int| 0 <= t < matches.len() ==> (#[trigger] visible[base.len() + t]).index == scripts_start + matches[t].index
            && visible[base.len() + t].positions@ == matches[t].positions@,
    ensures
        forall|k: int| 0 <= k < visible.len() ==> entry_ok(rows, query, expanded, #[trigger] visible[k]),
        forall|k: int| 0 <= k < visible.len() ==> (#[trigger] visible[k]).index < end,
        forall|i: int|
            0 <= i < end && row_visible(rows, query, expanded, i) ==> exists|k: int|
                0 <= k < visible.len() && (#[trigger] visible[k]).index == i,
        forall|k1: int, k2: int|
            #![trigger visible[k1], visible[k2]]
            0 <= k1 < k2 < visible.len() ==> shown_before(rows, query, visible[k1].index as int, visible[k2].index as int),
{
    let seg = if is_group { start } else { -1 };
    if !open {
        assert forall|i: int| 0 <= i < end && row_visible(rows, query, expanded, i) implies exists|k: int|
                0 <= k < visible.len() && (#[trigger] visible[k]).index == i by {
            if i >= scripts_start {
                assert(group_before(rows, i) == Some(start));
            }
        }
        return;
    }
    let n = base.len();
    assert forall|t: int| 0 <= t < matches.len() implies {
        let e = #[trigger] visible[n + t];
        &&& entry_ok(rows, query, expanded, e)
        &&& seg_key(rows, e.index as int) == seg
        &&& rows[e.index as int] is Script
    } by {
        let m = matches[t];
        let i = scripts_start + m.index;
        assert(names[m.index as int]@ == script_name(rows[i]));
        assert(group_before(rows, i) == (if is_group { Some(start) } else { None::<int> }));
        assert(rows[i] is Script);
    }
    assert forall|k: int| 0 <= k < visible.len() implies entry_ok(rows, query, expanded, #[trigger] visible[k]) by {
        if k < n {
            assert(visible[k] == base[k]);
        } else {
            assert(visible[n + (k - n)] == visible[k]);
        }
    }
    assert forall|k: int| 0 <= k < visible.len() implies (#[trigger] visible[k]).index < end by {
        if k < n {
            assert(visible[k] == base[k]);
        } else {
            let t = k - n;
            assert(visible[n + t] == visible[k]);
            assert(matches[t].index < names.len());
        }
    }
    assert forall|i: int| 0 <= i < end && row_visible(rows, query, expanded, i) implies exists|k: int|
            0 <= k < visible.len() && (#[trigger] visible[k]).index == i by {
        if i < scripts_start {
            let k0 = choose|k: int| 0 <= k < base.len() && (#[trigger] base[k]).index == i;
            assert(visible[k0] == base[k0]);
        } else {
            let local = i - scripts_start;
            assert(names[local]@ == script_name(rows[i]));
            assert(group_before(rows, i) == (if is_group { Some(start) } else { None::<int> }));
            assert(name_score(names[local]@, query) is Some);
            let j0 = choose|j: int| 0 <= j < matches.len() && matches[j].index == local;
            assert(visible[n + j0].index == i);
        }
    }
    assert forall|k1: int, k2: int| 0 <= k1 < k2 < visible.len() implies shown_before(
        rows,
        query,
        visible[k1].index as int,
        visible[k2].index as int,
    ) by {
        if k2 < n {
            assert(visible[k1] == base[k1]);
            assert(visible[k2] == base[k2]);
        } else if k1 < n {
            let t2 = k2 - n;
            assert(visible[n + t2] == visible[k2]);
            assert(visible[k1] == base[k1]);
            let a = base[k1].index as int;
            lemma_seg_key_le(rows, a);
            if a == start {
                assert(is_group);
                assert(rows[a] is Group);
                assert(seg_key(rows, a) == start);
            }
        } else {
            let t1 = k1 - n;
            let t2 = k2 - n;
            assert(visible[n + t1] == visible[k1]);
            assert(visible[n + t2] == visible[k2]);
            let m1 = matches[t1];
            let m2 = matches[t2];
            assert(names[m1.index as int]@ == script_name(rows[scripts_start + m1.index]));
            assert(names[m2.index as int]@ == script_name(rows[scripts_start + m2.index]));
        }
    }
}

/// Position of the first group row, from `k` on, with the root.
pub open spec fn group_pos_from(rows: Seq<CatalogRow>, root: Seq<char>, k: int) -> Option<int>
    decreases rows.len() - k,
{
    if k < 0 || k >= rows.len() {
        None
    } else if rows[k] is Group && row_root(rows[k]) == root {
        Some(k)
    } else {
        group_pos_from(rows, root, k + 1)
    }
}

fn find_group(rows: &Vec<CatalogRow>, root: &str) -> (r: Option<usize>)
    ensures
        match r {
            Some(i) => group_pos_from(rows@, root@, 0) == Some(i as int) && i < rows@.len(),
            None => group_pos_from(rows@, root@, 0) is None,
        },
{
    let mut k: usize = 0;
    while k < rows.len()
        invariant
            k <= rows@.len(),
            group_pos_from(rows@, root@, 0) == group_pos_from(rows@, root@, k as int),
        decreases rows.len() - k,
    {
        if let CatalogRow::Group(g) = &rows[k] {
            if same_text(g.as_str(), root) {
                return Some(k);
            }
        }
        k += 1;
    }
    None
}

/// The text without its last character.
fn without_last(text: &String) -> (r: String)
    ensures
        r@ == (if text@.len() > 0 {
            text@.drop_last()
        } else {
            text@
        }),
{
    let chars = chars_of(text.as_str());
    if chars.len() == 0 {
        return copy_string(text);
    }
    let out = crate::domain::text::string_of(&chars.as_slice()[0..chars.len() - 1]);
    assert(out@ =~= text@.drop_last());
    out
}

impl SidebarApp {
    /// The shown rows for the current query and open groups.
    pub fn filtered_rows(&self) -> (r: Vec<FuzzyMatch>)
        ensures
            is_shown_list(self.rows@, self.search.query@, self.expanded@, r@),
    {
        filter_rows(&self.rows, self.search.query.as_str(), &self.expanded)
    }

    /// Recompute the shown rows. Typing selects the first matching script;
    /// otherwise a selection that disappeared falls back to its group header,
    /// else to the first shown row.
    fn refilter(&mut self, select_first: bool)
        ensures
            is_shown_list(old(self).rows@, old(self).search.query@, old(self).expanded@, final(self).search.matches@),
            final(self).well_formed(),
            final(self).rows == old(self).rows,
            final(self).listed == old(self).listed,
            final(self).expanded == old(self).expanded,
            final(self).search.query == old(self).search.query,
            final(self).search.mode == old(self).search.mode,
            final(self).run_intents == old(self).run_intents,
            final(self).inner == old(self).inner,
            final(self).launch_error == old(self).launch_error,
            final(self).theme == old(self).theme,
            select_first ==> final(self).selected == match first_script_match_from(
                final(self).search.matches@,
                old(self).rows@,
                0,
            ) {
                Some(i) => i,
                None => old(self).selected as int,
            },
            select_first ==> final(self).footer_offset == 0,
            !select_first ==> final(self).footer_offset == old(self).footer_offset,
            !select_first && match_pos_from(final(self).search.matches@, old(self).selected as int, 0) is Some
                ==> final(self).selected == old(self).selected,
            !select_first && match_pos_from(final(self).search.matches@, old(self).selected as int, 0) is None
                ==> final(self).selected == fallback_selection(
                old(self).rows@,
                old(self).selected as int,
                final(self).search.matches@,
            ),
    {
        self.search.matches = self.filtered_rows();
        if select_first {
            if let Some(first) = self.first_visible_script() {
                self.selected = first;
            }
            self.list_offset = 0;
            self.footer_offset = 0;
        } else if self.visible_pos(self.selected).is_none() {
            let group = if self.selected < self.rows.len() {
                let root = self.rows[self.selected].package_root();
                find_group(&self.rows, root)
            } else {
                None
            };
            let group_shown = match group {
                Some(g) => self.visible_pos(g).is_some(),
                None => false,
            };
            self.selected = if group_shown {
                match group {
                    Some(g) => g,
                    None => 0,
                }
            } else if self.search.matches.len() > 0 {
                self.search.matches[0].index
            } else {
                0
            };
            self.list_offset = 0;
        }
        self.clamp_list_offset();
        self.ensure_visible();
    }

    /// Esc leaves the search: no filter, the saved tree again.
    fn clear_search(&mut self)
        ensures
            final(self).search.mode == SearchMode::Off,
            final(self).search.query@.len() == 0,
            is_shown_list(old(self).rows@, Seq::empty(), old(self).expanded@, final(self).search.matches@),
            final(self).well_formed(),
            final(self).rows == old(self).rows,
            final(self).listed == old(self).listed,
            final(self).expanded == old(self).expanded,
            final(self).run_intents == old(self).run_intents,
    {
        self.search.mode = SearchMode::Off;
        self.search.query = String::new();
        self.refilter(false);
    }

    /// Opening or closing a group does nothing while a filter is typed, when
    /// nothing is selected, or when a script row is asked to open.
    pub open spec fn spec_group_move_skipped(self, open: bool) -> bool {
        self.search.query@.len() > 0 || self.selected >= self.rows@.len() || (open
            && !(self.rows@[self.selected as int] is Group))
    }

    /// The state `after` opening (or closing) the group of the selected row:
    /// the root joins (or leaves) the expanded set, the shown rows follow, the
    /// footer restarts, and a close selects the group header.
    pub open spec fn spec_group_moved(self, after: SidebarApp, open: bool) -> bool {
        let root = row_root(self.rows@[self.selected as int]);
        &&& forall|x: Seq<char>| is_expanded(after.expanded@, x) == (if open {
            is_expanded(self.expanded@, x) || x == root
        } else {
            is_expanded(self.expanded@, x) && x != root
        })
        &&& is_shown_list(self.rows@, self.search.query@, after.expanded@, after.search.matches@)
        &&& after.footer_offset == 0
        &&& open ==> after.selected == self.selected
        &&& !open ==> after.selected == match group_pos_from(self.rows@, root, 0) {
            Some(g) => g,
            None => if match_pos_from(after.search.matches@, self.selected as int, 0) is Some {
                self.selected as int
            } else {
                fallback_selection(self.rows@, self.selected as int, after.search.matches@)
            },
        }
    }

    /// The state `after` Enter on the selected row: a group header that is
    /// collapsed opens, an expanded one closes; any other row stays as it is.
    pub open spec fn spec_toggled(self, after: SidebarApp) -> bool {
        if self.selected < self.rows@.len() && self.rows@[self.selected as int] is Group {
            let open = !is_expanded(self.expanded@, row_root(self.rows@[self.selected as int]));
            if self.spec_group_move_skipped(open) {
                after == self
            } else {
                self.spec_group_moved(after, open)
            }
        } else {
            after == self
        }
    }

    /// Expand the selected group, or collapse the group of the selected row
    /// and select its header. A typed filter leaves the saved tree alone.
    fn set_group_open(&mut self, open: bool)
        ensures
            final(self).rows == old(self).rows,
            final(self).listed == old(self).listed,
            final(self).run_intents == old(self).run_intents,
            final(self).search.query == old(self).search.query,
            final(self).well_formed() || *final(self) == *old(self),
            old(self).spec_group_move_skipped(open) ==> *final(self) == *old(self),
            !old(self).spec_group_move_skipped(open) ==> old(self).spec_group_moved(*final(self), open),
    {
        if !self.search.query.as_str().is_empty() {
            return;
        }
        if self.selected >= self.rows.len() {
            return;
        }
        if open && !(self.rows[self.selected] matches CatalogRow::Group(_)) {
            return;
        }
        let root = owned(self.rows[self.selected].package_root());
        let ghost old_expanded = self.expanded@;
        if open {
            if !root_expanded(&self.expanded, root.as_str()) {
                self.expanded.push(copy_string(&root));
            }
            proof {
                assert forall|x: Seq<char>| is_expanded(self.expanded@, x) == (is_expanded(old_expanded, x) || x == root@) by {
                    if is_expanded(old_expanded, x) {
                        let i = choose|i: int| 0 <= i < old_expanded.len() && (#[trigger] old_expanded[i])@ == x;
                        assert(self.expanded@[i] == old_expanded[i]);
                    }
                    if x == root@ && !is_expanded(old_expanded, x) {
                        assert(self.expanded@[self.expanded@.len() - 1]@ == root@);
                    }
                }
            }
        } else {
            let mut kept: Vec<String> = Vec::new();
            let mut i: usize = 0;
            while i < self.expanded.len()
                invariant
                    i <= self.expanded@.len(),
                    self.expanded@ == old_expanded,
                    forall|x: Seq<char>| is_expanded(kept@, x) == (x != root@ && exists|t: int| 0 <= t < i && (#[trigger] old_expanded[t])@ == x),
                decreases self.expanded.len() - i,
            {
                if !same_text(self.expanded[i].as_str(), root.as_str()) {
                    let ghost before = kept@;
                    kept.push(copy_string(&self.expanded[i]));
                    proof {
                        assert forall|x: Seq<char>| is_expanded(kept@, x) == (x != root@ && exists|t: int| 0 <= t < i + 1 && (#[trigger] old_expanded[t])@ == x) by {
                            if is_expanded(kept@, x) {
                                let j = choose|j: int| 0 <= j < kept@.len() && (#[trigger] kept@[j])@ == x;
                                if j < before.len() {
                                    assert(kept@[j] == before[j]);
                                    assert(is_expanded(before, x));
                                }
                            }
                            if x != root@ && exists|t: int| 0 <= t < i + 1 && (#[trigger] old_expanded[t])@ == x {
                                let t = choose|t: int| 0 <= t < i + 1 && (#[trigger] old_expanded[t])@ == x;
                                if t < i {
                                    assert(is_expanded(before, x));
                                    let j = choose|j: int| 0 <= j < before.len() && (#[trigger] before[j])@ == x;
                                    assert(kept@[j] == before[j]);
                                } else {
                                    assert(kept@[before.len() as int]@ == x);
                                }
                            }
                        }
                    }
                } else {
                    proof {
                        assert forall|x: Seq<char>| is_expanded(kept@, x) == (x != root@ && exists|t: int| 0 <= t < i + 1 && (#[trigger] old_expanded[t])@ == x) by {
                            if x != root@ && exists|t: int| 0 <= t < i + 1 && (#[trigger] old_expanded[t])@ == x {
                                let t = choose|t: int| 0 <= t < i + 1 && (#[trigger] old_expanded[t])@ == x;
                                assert(t < i);
                            }
                        }
                    }
                }
                i += 1;
            }
            self.expanded = kept;
            if let Some(index) = find_group(&self.rows, root.as_str()) {
                self.selected = index;
            }
        }
        let ghost chosen = self.selected;
        self.refilter(false);
        proof {
            if chosen < self.rows@.len() && self.rows@[chosen as int] is Group {
                assert(row_visible(self.rows@, self.search.query@, self.expanded@, chosen as int));
                lemma_match_pos_exists(self.search.matches@, chosen as int);
            }
            if open {
                assert(self.rows@[chosen as int] is Group);
            } else {
                let g = group_pos_from(self.rows@, root@, 0);
                if g is Some {
                    lemma_group_pos_is_group(self.rows@, root@, 0);
                }
            }
        }
        self.footer_offset = 0;
    }

    /// Enter on a group header expands or collapses it.
    fn toggle_selected_group(&mut self)
        ensures
            final(self).run_intents == old(self).run_intents,
            final(self).rows == old(self).rows,
            final(self).listed == old(self).listed,
            final(self).search.query == old(self).search.query,
            final(self).well_formed() || *final(self) == *old(self),
            old(self).spec_toggled(*final(self)),
    {
        if self.selected >= self.rows.len() {
            return;
        }
        let open = match &self.rows[self.selected] {
            CatalogRow::Group(root) => !root_expanded(&self.expanded, root.as_str()),
            CatalogRow::Script(_) => {
                return;
            },
        };
        self.set_group_open(open);
    }

    /// Enter on a group header, with no filter typed, flips the group: a
    /// collapsed group opens and an expanded one closes.
    pub proof fn lemma_toggle_flips_the_group(self, after: SidebarApp)
        requires
            self.spec_toggled(after),
            self.selected < self.rows@.len(),
            self.rows@[self.selected as int] is Group,
            self.search.query@.len() == 0,
        ensures
            ({
                let root = self.rows@[self.selected as int]->Group_0@;
                is_expanded(after.expanded@, root) == !is_expanded(self.expanded@, root)
            }),
    {
        let root = self.rows@[self.selected as int]->Group_0@;
        assert(row_root(self.rows@[self.selected as int]) == root);
        let open = !is_expanded(self.expanded@, root);
        assert(!self.spec_group_move_skipped(open));
        assert(is_expanded(after.expanded@, root) == (if open {
            is_expanded(self.expanded@, root) || root == root
        } else {
            is_expanded(self.expanded@, root) && root != root
        }));
    }

    /// A move by a positive number of rows never lands above the selected
    /// row's place in the list, a negative one never below it; a move of one
    /// lands on the next shown row, when there is one.
    pub proof fn lemma_move_target_direction(self, delta: int)
        requires
            self.search.matches@.len() > 0,
            self.spec_visible_pos(self.selected as int) is Some,
        ensures
            ({
                let len = self.search.matches@.len() as int;
                let pos = self.spec_visible_pos(self.selected as int)->0;
                &&& delta == 1 && pos + 1 < len ==> self.spec_move_target(delta) == self.search.matches@[pos + 1].index
                &&& delta == -1 && pos > 0 ==> self.spec_move_target(delta) == self.search.matches@[pos - 1].index
                &&& delta == 1 && pos + 1 >= len ==> self.spec_move_target(delta) == self.search.matches@[pos].index
                &&& delta == -1 && pos == 0 ==> self.spec_move_target(delta) == self.search.matches@[0].index
            }),
    {
        lemma_match_pos_bound(self.search.matches@, self.selected as int);
    }

    /// `/`, or Control with `f`, opens the search.
    pub open spec fn spec_is_open_search_key(key: KeyInput) -> bool {
        key.code == KeyCode::Char('/') || ((key.code == KeyCode::Char('f') || key.code == KeyCode::Char('F')) && key.control)
    }

    fn is_open_search_key(&self, key: &KeyInput) -> (r: bool)
        ensures
            r == Self::spec_is_open_search_key(*key),
    {
        key.code == KeyCode::Char('/') || ((key.code == KeyCode::Char('f') || key.code == KeyCode::Char('F'))
            && key.control)
    }

    /// A key while the search field is open. Letters are query text, `q`
    /// included; nothing quits from here.
    fn handle_search_key(&mut self, key: KeyInput) -> (r: bool)
        requires
            old(self).well_formed(),
        ensures
            !r,
            final(self).rows == old(self).rows,
            final(self).listed == old(self).listed,
            final(self).run_intents == old(self).run_intents,
            key.code == KeyCode::Esc ==> final(self).search.mode == SearchMode::Off && final(self).search.query@.len() == 0,
            key.code == KeyCode::Enter ==> final(self).search.mode == SearchMode::Applied,
            (key.code matches KeyCode::Char(c) && !key.control) ==> final(self).search.query@ == old(self).search.query@.push(key.code->Char_0) && final(self).search.mode == old(self).search.mode,
            key.code == KeyCode::Backspace ==> final(self).search.query@ == (if old(self).search.query@.len() > 0 { old(self).search.query@.drop_last() } else { old(self).search.query@ }),
            key.code == KeyCode::Down && old(self).search.matches@.len() > 0 ==> final(self).selected
                == old(self).spec_move_target(1),
            key.code == KeyCode::Up && old(self).search.matches@.len() > 0 ==> final(self).selected
                == old(self).spec_move_target(-1),
            final(self).well_formed(),
            final(self).expanded == old(self).expanded,
    {
        match key.code {
            KeyCode::Esc => self.clear_search(),
            KeyCode::Enter => self.apply_search(),
            KeyCode::Backspace => {
                self.search.query = without_last(&self.search.query);
                self.refilter(true);
            },
            KeyCode::Down => self.move_selection(1),
            KeyCode::Up => self.move_selection(-1),
            KeyCode::Char(ch) => {
                if !key.control {
                    push_char(&mut self.search.query, ch);
                    self.refilter(true);
                }
            },
            _ => {},
        }
        false
    }

    /// A key that reaches the list: not typed into the search, not a quit or
    /// an Esc that clears the filter, not the search key, and the catalogue is
    /// shown.
    pub open spec fn spec_navigates(self, key: KeyInput) -> bool {
        &&& self.search.mode != SearchMode::Editing
        &&& !(key.code == KeyCode::Esc)
        &&& key.code != KeyCode::Char('q')
        &&& !self.spec_too_small()
        &&& self.listed.catalog is Ok
        &&& !Self::spec_is_open_search_key(key)
    }

    /// A key press. Returns whether the sidebar should close.
    pub fn handle_key(&mut self, key: KeyInput) -> (r: bool)
        requires
            old(self).well_formed(),
        ensures
            r == (old(self).search.mode != SearchMode::Editing && !(key.code == KeyCode::Esc && (
            old(self).search.mode != SearchMode::Off || old(self).search.query@.len() > 0)) && (key.code
                == KeyCode::Char('q') || key.code == KeyCode::Esc)),
            final(self).rows == old(self).rows,
            final(self).listed == old(self).listed,
            final(self).well_formed(),
            old(self).search.mode == SearchMode::Editing && (key.code matches KeyCode::Char(c)) && !key.control
                ==> final(self).search.query@ == old(self).search.query@.push(key.code->Char_0),
            old(self).search.mode == SearchMode::Editing && key.code == KeyCode::Esc ==> final(self).search.mode
                == SearchMode::Off && final(self).search.query@.len() == 0 && final(self).expanded
                == old(self).expanded,
            old(self).search.mode != SearchMode::Editing && key.code == KeyCode::Esc && (old(self).search.mode
                != SearchMode::Off || old(self).search.query@.len() > 0) ==> final(self).search.mode
                == SearchMode::Off && final(self).search.query@.len() == 0
                && final(self).expanded == old(self).expanded,
            old(self).search.mode != SearchMode::Editing && key.code != KeyCode::Char('q') && key.code != KeyCode::Esc
                && (old(self).spec_too_small() || old(self).listed.catalog is Err) ==> !r && *final(self) == *old(self),
            old(self).spec_navigates(key) && (key.code == KeyCode::Char('j') || key.code == KeyCode::Down)
                ==> final(self).selected == (if old(self).search.matches@.len() == 0 {
                old(self).selected as int
            } else {
                old(self).spec_move_target(1)
            }),
            old(self).spec_navigates(key) && (key.code == KeyCode::Char('k') || key.code == KeyCode::Up)
                ==> final(self).selected == (if old(self).search.matches@.len() == 0 {
                old(self).selected as int
            } else {
                old(self).spec_move_target(-1)
            }),
            old(self).spec_navigates(key) && (key.code == KeyCode::Char('l') || (key.code == KeyCode::Right
                && !(old(self).listed.catalog matches Ok(ProjectCatalog::Workspace(_)))))
                ==> final(self).footer_offset == clamp_int(old(self).footer_offset + 1, 0, usize::MAX as int)
                && final(self).selected == old(self).selected,
            old(self).spec_navigates(key) && (key.code == KeyCode::Char('h') || (key.code == KeyCode::Left
                && !(old(self).listed.catalog matches Ok(ProjectCatalog::Workspace(_)))))
                ==> final(self).footer_offset == clamp_int(old(self).footer_offset - 1, 0, usize::MAX as int)
                && final(self).selected == old(self).selected,
            old(self).spec_navigates(key) && key.code == KeyCode::Enter && old(self).selected
                < old(self).rows@.len() && old(self).rows@[old(self).selected as int] is Group
                ==> final(self).run_intents == old(self).run_intents && old(self).spec_toggled(*final(self)),
            old(self).search.mode == SearchMode::Editing && key.code == KeyCode::Down && old(self).search.matches@.len() > 0
                ==> final(self).selected == old(self).spec_move_target(1),
            old(self).search.mode == SearchMode::Editing && key.code == KeyCode::Up && old(self).search.matches@.len() > 0
                ==> final(self).selected == old(self).spec_move_target(-1),
            final(self).run_intents@ == old(self).run_intents@ || (old(self).search.mode != SearchMode::Editing
                && key.code == KeyCode::Enter && !old(self).spec_too_small() && old(self).listed.catalog is Ok
                && old(self).selected < old(self).rows@.len()
                && old(self).rows@[old(self).selected as int] is Script && final(self).run_intents@
                == old(self).run_intents@.push(old(self).rows@[old(self).selected as int]->Script_0)),
    {
        if self.search.is_editing() {
            return self.handle_search_key(key);
        }
        if key.code == KeyCode::Esc && self.search.has_filter() {
            self.clear_search();
            return false;
        }
        if key.code == KeyCode::Char('q') || key.code == KeyCode::Esc {
            return true;
        }
        if self.too_small() || self.listed.catalog.is_err() {
            return false;
        }
        if self.is_open_search_key(&key) {
            self.open_search();
            return false;
        }
        let in_workspace = self.workspace().is_some();
        match key.code {
            KeyCode::Char('j') | KeyCode::Down => self.move_selection(1),
            KeyCode::Char('k') | KeyCode::Up => self.move_selection(-1),
            KeyCode::Right if in_workspace => self.set_group_open(true),
            KeyCode::Left if in_workspace => self.set_group_open(false),
            KeyCode::Char('l') | KeyCode::Right => self.scroll_footer(1),
            KeyCode::Char('h') | KeyCode::Left => self.scroll_footer(-1),
            KeyCode::Enter => {
                let on_group = self.selected < self.rows.len() && (self.rows[self.selected] matches CatalogRow::Group(_));
                if on_group {
                    self.toggle_selected_group();
                } else {
                    self.emit_run();
                }
            },
            _ => {},
        }
        false
    }

    /// The catalogue row of the list cell under a click, when that cell shows
    /// one of the visible rows.
    pub open spec fn spec_clicked_row(self, column: int, row: int) -> Option<int> {
        let g = self.spec_layout();
        let v = self.list_offset + (row - g.list.y);
        if g.list.holds(column, row) && v < self.search.matches@.len() {
            Some(self.search.matches@[v].index as int)
        } else {
            None
        }
    }

    /// The state once a click has selected the visible row `index`: the
    /// footer restarts on a new row and the list scrolls just enough to show it.
    pub open spec fn spec_clicked(self, index: int) -> SidebarApp {
        SidebarApp {
            selected: index as usize,
            footer_offset: if index != self.selected {
                0usize
            } else {
                self.footer_offset
            },
            list_offset: offset_showing(
                self.list_offset as int,
                self.spec_visible_pos(index),
                self.spec_list_height(),
            ) as usize,
            ..self
        }
    }

    /// A mouse event: a click on the magnifier opens the search, a click on a
    /// row selects it (a group toggles, a script's play gutter launches it),
    /// the wheel scrolls the list without moving the selection.
    pub fn handle_mouse(&mut self, mouse: MouseInput)
        requires
            old(self).well_formed(),
        ensures
            final(self).rows == old(self).rows,
            final(self).listed == old(self).listed,
            final(self).well_formed(),
            (mouse.kind == MouseKind::ScrollUp || mouse.kind == MouseKind::ScrollDown) ==> final(self).selected == old(self).selected && final(self).run_intents == old(self).run_intents,
            mouse.kind != MouseKind::LeftDown ==> final(self).run_intents == old(self).run_intents,
            final(self).run_intents@ == old(self).run_intents@ || (old(self).spec_layout().hits_icon_gutter_at(
                mouse.column as int,
                mouse.row as int,
            ) && final(self).selected < old(self).rows@.len() && old(self).rows@[final(self).selected as int] is Script
                && final(self).run_intents@ == old(self).run_intents@.push(
                old(self).rows@[final(self).selected as int]->Script_0,
            )),
            old(self).spec_too_small() || old(self).listed.catalog is Err ==> *final(self) == *old(self),
            mouse.kind == MouseKind::Other ==> *final(self) == *old(self),
            (mouse.kind == MouseKind::ScrollUp || mouse.kind == MouseKind::ScrollDown)
                && !old(self).spec_layout().list.holds(mouse.column as int, mouse.row as int)
                ==> *final(self) == *old(self),
            !(old(self).spec_too_small() || old(self).listed.catalog is Err)
                && (mouse.kind == MouseKind::ScrollUp || mouse.kind == MouseKind::ScrollDown)
                && old(self).spec_layout().list.holds(mouse.column as int, mouse.row as int) ==> {
                &&& same_content(*old(self), *final(self))
                &&& final(self).selected == old(self).selected
                &&& final(self).footer_offset == old(self).footer_offset
                &&& final(self).list_offset == clamp_int(
                    old(self).list_offset + (if mouse.kind == MouseKind::ScrollDown {
                        WHEEL_LINES as int
                    } else {
                        -WHEEL_LINES
                    }),
                    0,
                    spec_max_offset(old(self).search.matches@.len() as int, old(self).spec_list_height()),
                )
            },
            !(old(self).spec_too_small() || old(self).listed.catalog is Err) && mouse.kind == MouseKind::LeftDown
                && old(self).spec_layout().magnifier.holds(mouse.column as int, mouse.row as int) ==> {
                &&& final(self).search.mode == SearchMode::Editing
                &&& final(self).search.query == old(self).search.query
                &&& final(self).search.matches == old(self).search.matches
                &&& final(self).selected == old(self).selected
                &&& final(self).expanded == old(self).expanded
                &&& final(self).run_intents == old(self).run_intents
                &&& final(self).footer_offset == old(self).footer_offset
            },
            !(old(self).spec_too_small() || old(self).listed.catalog is Err) && mouse.kind == MouseKind::LeftDown
                && !old(self).spec_layout().magnifier.holds(mouse.column as int, mouse.row as int)
                && old(self).spec_clicked_row(mouse.column as int, mouse.row as int) is None
                ==> *final(self) == *old(self),
            !(old(self).spec_too_small() || old(self).listed.catalog is Err) && mouse.kind == MouseKind::LeftDown
                && !old(self).spec_layout().magnifier.holds(mouse.column as int, mouse.row as int)
                && old(self).spec_clicked_row(mouse.column as int, mouse.row as int) is Some ==> {
                let index = old(self).spec_clicked_row(mouse.column as int, mouse.row as int)->Some_0;
                let clicked = old(self).spec_clicked(index);
                let gutter = old(self).spec_layout().hits_icon_gutter_at(mouse.column as int, mouse.row as int);
                &&& old(self).rows@[index] is Group ==> clicked.spec_toggled(*final(self))
                &&& old(self).rows@[index] is Script && !gutter ==> *final(self) == clicked
                &&& old(self).rows@[index] is Script && gutter ==> {
                    &&& final(self).selected == index
                    &&& final(self).search == old(self).search
                    &&& final(self).expanded == old(self).expanded
                    &&& final(self).list_offset == clicked.list_offset
                    &&& final(self).run_intents@ == if clicked.spec_selected_script() is Some {
                        old(self).run_intents@.push(old(self).rows@[index]->Script_0)
                    } else {
                        old(self).run_intents@
                    }
                }
            },
    {
        if self.too_small() || self.listed.catalog.is_err() {
            return;
        }
        let geo = self.layout();
        match mouse.kind {
            MouseKind::LeftDown => {
                if geo.magnifier.contains(mouse.column, mouse.row) {
                    self.open_search();
                    return;
                }
                let visible = match geo.script_index(mouse.column, mouse.row, self.list_offset, self.visible_len()) {
                    Some(v) => v,
                    None => {
                        return;
                    },
                };
                let index = match self.catalog_at_visible(visible) {
                    Some(i) => i,
                    None => {
                        return;
                    },
                };
                proof {
                    lemma_match_pos_exists(self.search.matches@, index as int);
                }
                self.select_index(index);
                assert(*self == old(self).spec_clicked(index as int));
                if self.rows[index] matches CatalogRow::Group(_) {
                    self.toggle_selected_group();
                } else if geo.hits_icon_gutter(mouse.column, mouse.row) {
                    self.emit_run();
                }
            },
            MouseKind::ScrollUp | MouseKind::ScrollDown => {
                if !geo.list.contains(mouse.column, mouse.row) {
                    return;
                }
                let delta: isize = if mouse.kind == MouseKind::ScrollDown {
                    WHEEL_LINES
                } else {
                    -WHEEL_LINES
                };
                self.scroll_list(delta);
            },
            _ => {},
        }
    }
}

/// Where a selection that disappeared goes: its group header when shown,
/// else the first shown row, else the first row.
pub open spec fn fallback_selection(rows: Seq<CatalogRow>, selected: int, m: Seq<FuzzyMatch>) -> int {
    let group = if 0 <= selected < rows.len() {
        group_pos_from(rows, row_root(rows[selected]), 0)
    } else {
        None
    };
    match group {
        Some(g) if match_pos_from(m, g, 0) is Some => g,
        _ => if m.len() > 0 {
            m[0].index as int
        } else {
            0
        },
    }
}

/// The rows of one package's scripts.
pub open spec fn script_rows(c: PackageCatalog) -> Seq<CatalogRow> {
    Seq::new(
        c.scripts@.len(),
        |i: int| CatalogRow::Script(RunIntent { package_root: c.root, script_name: c.scripts@[i].name }),
    )
}

/// The rows of workspace members from `k` on: each group header, then its
/// scripts when its manifest was read.
pub open spec fn member_rows(ps: Seq<WorkspacePackage>, k: int) -> Seq<CatalogRow>
    decreases ps.len() - k,
{
    if k < 0 || k >= ps.len() {
        Seq::empty()
    } else {
        seq![CatalogRow::Group(ps[k].root)] + match ps[k].catalog {
            Ok(c) => script_rows(c),
            Err(_) => Seq::empty(),
        } + member_rows(ps, k + 1)
    }
}

/// The rows of a catalogue.
pub open spec fn spec_rows(catalog: Result<ProjectCatalog, AppError>) -> Seq<CatalogRow> {
    match catalog {
        Ok(ProjectCatalog::Package(p)) => script_rows(p),
        Ok(ProjectCatalog::Workspace(w)) => member_rows(w.packages@, 0),
        Err(_) => Seq::empty(),
    }
}

/// The workspace member whose root is `root`, first of them.
pub open spec fn member_with_root(ps: Seq<WorkspacePackage>, root: Seq<char>, k: int) -> Option<int>
    decreases ps.len() - k,
{
    if k < 0 || k >= ps.len() {
        None
    } else if ps[k].root@ == root {
        Some(k)
    } else {
        member_with_root(ps, root, k + 1)
    }
}

/// The package that receives the first selection: the active member when its
/// manifest was read and it has scripts, else the workspace root's package.
pub open spec fn preferred_package(w: WorkspaceCatalog) -> Option<PackageCatalog> {
    let active = match w.active_package {
        Some(a) => match member_with_root(w.packages@, a@, 0) {
            Some(i) => match w.packages@[i].catalog {
                Ok(c) if c.scripts@.len() > 0 => Some(c),
                _ => None,
            },
            None => None,
        },
        None => None,
    };
    match active {
        Some(c) => Some(c),
        None => match member_with_root(w.packages@, w.root@, 0) {
            Some(i) => match w.packages@[i].catalog {
                Ok(c) => Some(c),
                Err(_) => None,
            },
            None => None,
        },
    }
}

/// The row of the first script of a package.
pub open spec fn first_script_row(rows: Seq<CatalogRow>, c: PackageCatalog, k: int) -> Option<int>
    decreases rows.len() - k,
{
    if k < 0 || k >= rows.len() || c.scripts@.len() == 0 {
        None
    } else if rows[k] is Script && rows[k]->Script_0.package_root@ == c.root@
        && rows[k]->Script_0.script_name@ == c.scripts@[0].name@ {
        Some(k)
    } else {
        first_script_row(rows, c, k + 1)
    }
}

/// The selection a new sidebar starts on.
pub open spec fn initial_selection(catalog: Result<ProjectCatalog, AppError>, rows: Seq<CatalogRow>) -> int {
    match catalog {
        Ok(ProjectCatalog::Workspace(w)) => match preferred_package(w) {
            Some(c) => match first_script_row(rows, c, 0) {
                Some(i) => i,
                None => 0,
            },
            None => 0,
        },
        _ => 0,
    }
}

fn push_script_rows(rows: &mut Vec<CatalogRow>, c: &PackageCatalog)
    ensures
        final(rows)@ == old(rows)@ + script_rows(*c),
{
    let ghost start = rows@;
    let mut i: usize = 0;
    while i < c.scripts.len()
        invariant
            i <= c.scripts@.len(),
            rows@ == start + script_rows(*c).take(i as int),
        decreases c.scripts.len() - i,
    {
        rows.push(CatalogRow::Script(RunIntent {
            package_root: copy_string(&c.root),
            script_name: copy_string(&c.scripts[i].name),
        }));
        i += 1;
        assert(rows@ =~= start + script_rows(*c).take(i as int));
    }
    assert(script_rows(*c).take(c.scripts@.len() as int) =~= script_rows(*c));
}

pub(crate) fn find_member(ps: &Vec<WorkspacePackage>, root: &str) -> (r: Option<usize>)
    ensures
        match r {
            Some(i) => i < ps@.len() && member_with_root(ps@, root@, 0) == Some(i as int),
            None => member_with_root(ps@, root@, 0) is None,
        },
{
    let mut k: usize = 0;
    while k < ps.len()
        invariant
            k <= ps@.len(),
            member_with_root(ps@, root@, 0) == member_with_root(ps@, root@, k as int),
        decreases ps.len() - k,
    {
        if same_text(ps[k].root.as_str(), root) {
            return Some(k);
        }
        k += 1;
    }
    None
}

fn preferred(w: &WorkspaceCatalog) -> (r: Option<&PackageCatalog>)
    ensures
        match r {
            Some(c) => preferred_package(*w) == Some(*c),
            None => preferred_package(*w) is None,
        },
{
    if let Some(active) = &w.active_package {
        if let Some(i) = find_member(&w.packages, active.as_str()) {
            if let Ok(c) = &w.packages[i].catalog {
                if c.scripts.len() > 0 {
                    return Some(c);
                }
            }
        }
    }
    match find_member(&w.packages, w.root.as_str()) {
        Some(i) => match &w.packages[i].catalog {
            Ok(c) => Some(c),
            Err(_) => None,
        },
        None => None,
    }
}

fn first_row_of(rows: &Vec<CatalogRow>, c: &PackageCatalog) -> (r: Option<usize>)
    ensures
        match r {
            Some(i) => first_script_row(rows@, *c, 0) == Some(i as int),
            None => first_script_row(rows@, *c, 0) is None,
        },
{
    if c.scripts.len() == 0 {
        return None;
    }
    let mut k: usize = 0;
    while k < rows.len()
        invariant
            k <= rows@.len(),
            c.scripts@.len() > 0,
            first_script_row(rows@, *c, 0) == first_script_row(rows@, *c, k as int),
        decreases rows.len() - k,
    {
        if let CatalogRow::Script(intent) = &rows[k] {
            if same_text(intent.package_root.as_str(), c.root.as_str()) && same_text(
                intent.script_name.as_str(),
                c.scripts[0].name.as_str(),
            ) {
                return Some(k);
            }
        }
        k += 1;
    }
    None
}

impl SidebarApp {
    pub fn new(listed: ListedScripts) -> (r: Self)
        ensures
            r.rows@ == spec_rows(listed.catalog),
            r.listed == listed,
            r.theme.mode == super::theme::IconMode::Ascii,
            r.well_formed(),
    {
        SidebarApp::with_theme(listed, Theme::ascii())
    }

    /// A sidebar on a frozen catalogue: one row per script, under a header per
    /// workspace member. The workspace root and the active member start
    /// expanded, and the selection starts on the preferred package's first
    /// script.
    pub fn with_theme(listed: ListedScripts, theme: Theme) -> (r: Self)
        ensures
            r.rows@ == spec_rows(listed.catalog),
            r.listed == listed,
            r.theme == theme,
            r.well_formed(),
            r.search.mode == SearchMode::Off,
            r.search.query@.len() == 0,
            is_shown_list(r.rows@, Seq::empty(), r.expanded@, r.search.matches@),
            r.run_intents@.len() == 0,
            r.launch_error is None,
            r.footer_offset == 0,
            r.inner == rect(0, 0, 32, 24),
            forall|x: Seq<char>| is_expanded(r.expanded@, x) == match listed.catalog {
                Ok(ProjectCatalog::Workspace(w)) => x == w.root@ || (w.active_package is Some
                    && x == w.active_package->0@),
                _ => false,
            },
            match_pos_from(r.search.matches@, initial_selection(listed.catalog, r.rows@), 0) is Some
                ==> r.selected == initial_selection(listed.catalog, r.rows@),
            match_pos_from(r.search.matches@, initial_selection(listed.catalog, r.rows@), 0) is None
                ==> r.selected == fallback_selection(
                r.rows@,
                initial_selection(listed.catalog, r.rows@),
                r.search.matches@,
            ),
    {
        let mut rows: Vec<CatalogRow> = Vec::new();
        let mut expanded: Vec<String> = Vec::new();
        let mut selected: usize = 0;
        match &listed.catalog {
            Ok(ProjectCatalog::Package(package)) => {
                push_script_rows(&mut rows, package);
                assert(rows@ =~= spec_rows(listed.catalog));
            },
            Ok(ProjectCatalog::Workspace(workspace)) => {
                expanded.push(copy_string(&workspace.root));
                if let Some(active) = &workspace.active_package {
                    if !same_text(active.as_str(), workspace.root.as_str()) {
                        expanded.push(copy_string(active));
                    }
                }
                proof {
                    assert forall|x: Seq<char>| is_expanded(expanded@, x) == (x == workspace.root@ || (
                    workspace.active_package is Some && x == workspace.active_package->0@)) by {
                        if x == workspace.root@ {
                            assert(expanded@[0]@ == x);
                        }
                        if workspace.active_package is Some && x == workspace.active_package->0@
                            && x != workspace.root@ {
                            assert(expanded@[1]@ == x);
                        }
                    }
                }
                let ghost ps = workspace.packages@;
                let mut k: usize = 0;
                assert(member_rows(ps, 0) =~= Seq::<CatalogRow>::empty() + member_rows(ps, 0));
                while k < workspace.packages.len()
                    invariant
                        k <= ps.len(),
                        ps == workspace.packages@,
                        rows@ + member_rows(ps, k as int) == member_rows(ps, 0),
                    decreases workspace.packages.len() - k,
                {
                    let package = &workspace.packages[k];
                    let ghost before = rows@;
                    rows.push(CatalogRow::Group(copy_string(&package.root)));
                    if let Ok(catalog) = &package.catalog {
                        push_script_rows(&mut rows, catalog);
                    }
                    assert(rows@ + member_rows(ps, k + 1) =~= before + member_rows(ps, k as int));
                    k += 1;
                }
                assert(rows@ =~= rows@ + member_rows(ps, ps.len() as int));
                if let Some(p) = preferred(workspace) {
                    if let Some(i) = first_row_of(&rows, p) {
                        selected = i;
                    }
                }
            },
            Err(_) => {},
        }
        assert(selected == initial_selection(listed.catalog, rows@));
        let mut app = SidebarApp {
            listed,
            selected,
            list_offset: 0,
            footer_offset: 0,
            run_intents: Vec::new(),
            inner: Rect::new(0, 0, 32, 24),
            process_running: true,
            workspace_id: String::new(),
            launch_error: None,
            search: SearchState::for_len(0),
            theme,
            rows,
            expanded,
        };
        app.refilter(false);
        assert(app.search.query@ =~= Seq::<char>::empty());
        app
    }
}

/// The footer text of a group: package name, path and manager, or the
/// path and the error that hides the package.
pub open spec fn group_detail(p: WorkspacePackage) -> Seq<char> {
    match p.catalog {
        Ok(c) => c.display_name@ + " ["@ + p.relative_path@ + "] "@ + manager_name(c.manager) + (if c.scripts@.len() == 0 {
            " - No scripts"@
        } else {
            Seq::empty()
        }),
        Err(e) => p.relative_path@ + ": "@ + error_text(e),
    }
}

impl SidebarApp {
    /// The footer text: the selected script's command, or the selected
    /// group's details.
    pub open spec fn spec_selected_detail(self) -> Seq<char> {
        match self.spec_selected_script() {
            Some(script) => script.command@,
            None => if self.selected < self.rows@.len() && self.rows@[self.selected as int] is Group {
                match self.listed.catalog {
                    Ok(ProjectCatalog::Workspace(w)) => match member_with_root(
                        w.packages@,
                        row_root(self.rows@[self.selected as int]),
                        0,
                    ) {
                        Some(i) => group_detail(w.packages@[i]),
                        None => Seq::empty(),
                    },
                    _ => Seq::empty(),
                }
            } else {
                Seq::empty()
            },
        }
    }

    pub fn selected_detail(&self) -> (r: String)
        ensures
            r@ == self.spec_selected_detail(),
    {
        if let Some(script) = self.selected_script() {
            return copy_string(&script.command);
        }
        if self.selected >= self.rows.len() {
            return String::new();
        }
        let root = match &self.rows[self.selected] {
            CatalogRow::Group(root) => root,
            CatalogRow::Script(_) => {
                return String::new();
            },
        };
        let workspace = match self.workspace() {
            Some(w) => w,
            None => {
                return String::new();
            },
        };
        let package = match find_member(&workspace.packages, root.as_str()) {
            Some(i) => &workspace.packages[i],
            None => {
                return String::new();
            },
        };
        match &package.catalog {
            Ok(catalog) => {
                let mut out = copy_string(&catalog.display_name);
                out.append(" [");
                out.append(package.relative_path.as_str());
                out.append("] ");
                out.append(catalog.manager.as_str());
                if catalog.scripts.len() == 0 {
                    out.append(" - No scripts");
                }
                out
            },
            Err(error) => {
                let mut out = copy_string(&package.relative_path);
                out.append(": ");
                let message = error.message();
                out.append(message.as_str());
                out
            },
        }
    }
}

/// A terminal event as the sidebar reads it.
#[derive(Debug, Clone, Copy, PartialEq, Eq)]
pub enum UiEvent {
    /// A key press (repeats and releases are not delivered).
    Key(KeyInput),
    Mouse(MouseInput),
    /// The pane's new outer size.
    Resize(u16, u16),
    Other,
}

/// Apply an event. Returns whether the sidebar should close.
pub fn handle_event(app: &mut SidebarApp, event: UiEvent) -> (r: bool)
    requires
        old(app).well_formed(),
    ensures
        final(app).well_formed(),
        final(app).rows == old(app).rows,
        final(app).listed == old(app).listed,
        match event {
            UiEvent::Key(key) => r == (old(app).search.mode != SearchMode::Editing && !(key.code
                == KeyCode::Esc && (old(app).search.mode != SearchMode::Off
                || old(app).search.query@.len() > 0)) && (key.code == KeyCode::Char('q') || key.code
                == KeyCode::Esc)),
            UiEvent::Resize(w, h) => !r && final(app).inner.x == old(app).inner.x
                && final(app).inner.y == old(app).inner.y && final(app).inner.width == sat_sub(w as int, 2)
                && final(app).inner.height == sat_sub(h as int, 2) && final(app).selected == old(app).selected,
            _ => !r,
        },
{
    match event {
        UiEvent::Key(key) => app.handle_key(key),
        UiEvent::Mouse(mouse) => {
            app.handle_mouse(mouse);
            false
        },
        UiEvent::Resize(width, height) => {
            let inner = Rect {
                x: app.inner.x,
                y: app.inner.y,
                width: width.saturating_sub(2),
                height: height.saturating_sub(2),
            };
            app.set_inner(inner);
            false
        },
        UiEvent::Other => false,
    }
}

/// A typed query shows every matching script, under collapsed groups too.
pub proof fn lemma_search_covers_collapsed_groups(
    rows: Seq<CatalogRow>,
    query: Seq<char>,
    expanded: Seq<String>,
    r: Seq<FuzzyMatch>,
    i: int,
)
    requires
        is_shown_list(rows, query, expanded, r),
        query.len() > 0,
        0 <= i < rows.len(),
        rows[i] is Script,
        name_score(script_name(rows[i]), query) is Some,
    ensures
        exists|k: int| 0 <= k < r.len() && r[k].index == i,
{
    assert(row_visible(rows, query, expanded, i));
}

/// Without a query, a script is shown exactly when its group is expanded (or
/// it has no group), and every group header is shown.
pub proof fn lemma_empty_query_shows_the_saved_tree(
    rows: Seq<CatalogRow>,
    expanded: Seq<String>,
    r: Seq<FuzzyMatch>,
    i: int,
)
    requires
        is_shown_list(rows, Seq::empty(), expanded, r),
        0 <= i < rows.len(),
    ensures
        (exists|k: int| 0 <= k < r.len() && r[k].index == i) <==> match rows[i] {
            CatalogRow::Group(_) => true,
            CatalogRow::Script(_) => match group_before(rows, i) {
                None => true,
                Some(g) => is_expanded(expanded, row_root(rows[g])),
            },
        },
{
    let q = Seq::<char>::empty();
    assert(name_score(script_name(rows[i]), q) == Some((0int, 0int, Seq::<int>::empty())));
    if exists|k: int| 0 <= k < r.len() && r[k].index == i {
        let k = choose|k: int| 0 <= k < r.len() && r[k].index == i;
        assert(entry_ok(rows, q, expanded, r[k]));
    } else {
        if row_visible(rows, q, expanded, i) {
            assert(exists|k: int| 0 <= k < r.len() && (#[trigger] r[k]).index == i);
        }
    }
}

proof fn lemma_match_pos_bound_from(m: Seq<FuzzyMatch>, i: int, from: int)
    requires
        0 <= from,
    ensures
        match_pos_from(m, i, from) matches Some(p) ==> from <= p < m.len() && m[p].index == i,
    decreases m.len() - from,
{
    if from < m.len() && m[from].index != i {
        lemma_match_pos_bound_from(m, i, from + 1);
    }
}

proof fn lemma_match_pos_bound(m: Seq<FuzzyMatch>, i: int)
    ensures
        match_pos_from(m, i, 0) matches Some(p) ==> 0 <= p < m.len() && m[p].index == i,
{
    lemma_match_pos_bound_from(m, i, 0);
}

proof fn lemma_match_pos_exists(m: Seq<FuzzyMatch>, i: int)
    requires
        exists|k: int| 0 <= k < m.len() && m[k].index == i,
    ensures
        match_pos_from(m, i, 0) is Some,
{
    let k = choose|k: int| 0 <= k < m.len() && m[k].index == i;
    lemma_match_pos_from(m, i, 0, k);
}

proof fn lemma_match_pos_from(m: Seq<FuzzyMatch>, i: int, from: int, k: int)
    requires
        0 <= from <= k < m.len(),
        m[k].index == i,
    ensures
        match_pos_from(m, i, from) is Some,
    decreases k - from,
{
    if m[from].index != i {
        lemma_match_pos_from(m, i, from + 1, k);
    }
}

proof fn lemma_group_pos_is_group(rows: Seq<CatalogRow>, root: Seq<char>, k: int)
    requires
        0 <= k,
        group_pos_from(rows, root, k) is Some,
    ensures
        0 <= group_pos_from(rows, root, k)->0 < rows.len(),
        rows[group_pos_from(rows, root, k)->0] is Group,
    decreases rows.len() - k,
{
    if k < rows.len() && !(rows[k] is Group && row_root(rows[k]) == root) {
        lemma_group_pos_is_group(rows, root, k + 1);
    }
}

} // verus!
