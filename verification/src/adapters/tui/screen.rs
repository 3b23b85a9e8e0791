//! What the sidebar shows, line by line: header, search field, the window of
//! visible rows, blank filler, footer and status lines. The program paints
//! these lines; each span carries a style of this module, which the program
//! turns into terminal colours.

use vstd::prelude::*;

use super::app::{find_member, group_detail, member_with_root, CatalogRow, SearchMode, SidebarApp};
use super::view::{ellipsize, format_row, scroll_text, spans_view, spec_ellipsize, spec_format_row, spec_scroll_text, sat_add, sat_sub};
use crate::domain::catalog::{manager_name, ProjectCatalog};
use crate::domain::error::{error_text, AppError};
use crate::domain::fuzzy::FuzzyMatch;
use crate::domain::text::{copy_string, owned, push_char, text_width, width_of_text};
use crate::domain::CWD_FALLBACK_NOTE;

verus! {

/// The colour role of a span.
#[derive(Debug, Clone, Copy, PartialEq, Eq, Structural)]
pub enum Tone {
    Normal,
    /// The magnifier.
    Accent,
    /// The selected row.
    Selection,
    /// The footer.
    Footer,
}

/// How a span is drawn.
#[derive(Debug, Clone, Copy, PartialEq, Eq, Structural)]
pub struct TextStyle {
    pub bold: bool,
    pub tone: Tone,
}

/// A span of text with its style.
pub type StyledSpan = (String, TextStyle);

pub open spec fn span_view(p: StyledSpan) -> (Seq<char>, TextStyle) {
    (p.0@, p.1)
}

pub open spec fn line_view(line: Seq<StyledSpan>) -> Seq<(Seq<char>, TextStyle)> {
    line.map_values(|p: StyledSpan| span_view(p))
}

pub open spec fn lines_view(lines: Seq<Vec<StyledSpan>>) -> Seq<Seq<(Seq<char>, TextStyle)>> {
    lines.map_values(|l: Vec<StyledSpan>| line_view(l@))
}

pub open spec fn plain_style() -> TextStyle {
    TextStyle { bold: false, tone: Tone::Normal }
}

/// A one-span line in the plain style.
pub open spec fn plain_line(text: Seq<char>) -> Seq<(Seq<char>, TextStyle)> {
    seq![(text, plain_style())]
}

/// The decimal digit of `d`.
pub open spec fn spec_digit(d: int) -> char {
    if d == 0 { '0' } else if d == 1 { '1' } else if d == 2 { '2' } else if d == 3 { '3' } else if d == 4 {
        '4'
    } else if d == 5 { '5' } else if d == 6 { '6' } else if d == 7 { '7' } else if d == 8 { '8' } else { '9' }
}

/// `n` written in decimal, as `format!("{}")` writes it.
pub open spec fn decimal(n: nat) -> Seq<char>
    decreases n,
{
    if n < 10 {
        seq![spec_digit(n as int)]
    } else {
        decimal(n / 10).push(spec_digit((n % 10) as int))
    }
}

fn digit_char(d: usize) -> (c: char)
    requires
        d < 10,
    ensures
        c == spec_digit(d as int),
{
    if d == 0 { '0' } else if d == 1 { '1' } else if d == 2 { '2' } else if d == 3 { '3' } else if d == 4 {
        '4'
    } else if d == 5 { '5' } else if d == 6 { '6' } else if d == 7 { '7' } else if d == 8 { '8' } else { '9' }
}

/// `n` in decimal.
pub fn decimal_text(n: usize) -> (r: String)
    ensures
        r@ == decimal(n as nat),
    decreases n,
{
    if n < 10 {
        let mut s = String::new();
        push_char(&mut s, digit_char(n));
        assert(s@ =~= seq![spec_digit(n as int)]);
        s
    } else {
        let mut s = decimal_text(n / 10);
        push_char(&mut s, digit_char(n % 10));
        s
    }
}

/// `count` spaces.
pub open spec fn spaces(count: int) -> Seq<char> {
    Seq::new(if count > 0 { count as nat } else { 0 }, |i: int| ' ')
}

fn space_text(count: usize) -> (r: String)
    ensures
        r@ == spaces(count as int),
{
    let mut s = String::new();
    let mut i: usize = 0;
    while i < count
        invariant
            i <= count,
            s@ == spaces(i as int),
        decreases count - i,
    {
        push_char(&mut s, ' ');
        i += 1;
        assert(s@ =~= spaces(i as int));
    }
    s
}

/// The header title: the number of workspace packages, else the package's
/// name and manager.
pub open spec fn spec_header(app: SidebarApp) -> Seq<char> {
    match app.listed.catalog {
        Ok(ProjectCatalog::Workspace(w)) => decimal(w.packages@.len()) + " packages"@,
        _ => match app.spec_catalog() {
            Some(c) => c.display_name@ + "  "@ + manager_name(c.manager),
            None => Seq::empty(),
        },
    }
}

/// The header line: the bold title cut to the room the magnifier leaves,
/// then, when the magnifier shows, the spaces that push it to the right edge
/// and the magnifier in the accent colour.
pub open spec fn spec_header_line(app: SidebarApp) -> Seq<(Seq<char>, TextStyle)> {
    let width = app.inner.width as int;
    let mag = app.spec_layout().magnifier.width as int;
    let title = spec_ellipsize(spec_header(app), sat_sub(width, mag));
    let head = seq![(title, TextStyle { bold: true, tone: Tone::Normal })];
    if mag == 0 {
        head
    } else {
        let used = text_width(title) as int;
        let pad = if used + mag < width {
            plain_line(spaces(width - used - mag))
        } else {
            Seq::empty()
        };
        head + pad + seq![(app.theme.icons.search@, TextStyle { bold: false, tone: Tone::Accent })]
    }
}

/// The label of a group row: the open or closed marker, then the member's
/// path and details, or the root when no member has it.
pub open spec fn spec_group_label(app: SidebarApp, root: Seq<char>) -> Seq<char> {
    let marker = if app.spec_group_open(root) { "-"@ } else { "+"@ };
    let found = match app.listed.catalog {
        Ok(ProjectCatalog::Workspace(w)) => match member_with_root(w.packages@, root, 0) {
            Some(i) => Some(w.packages@[i]),
            None => None,
        },
        _ => None,
    };
    match found {
        Some(p) => marker + " ["@ + p.relative_path@ + "] "@ + group_detail(p),
        None => marker + " "@ + root,
    }
}

/// The spans of a script row with the row's tone.
pub open spec fn toned(spans: Seq<(Seq<char>, bool)>, tone: Tone) -> Seq<(Seq<char>, TextStyle)> {
    spans.map_values(|p: (Seq<char>, bool)| (p.0, TextStyle { bold: p.1, tone }))
}

/// The line of a visible row; the selected row takes the selection tone.
pub open spec fn spec_row_line(app: SidebarApp, m: FuzzyMatch) -> Seq<(Seq<char>, TextStyle)> {
    let width = app.inner.width as int;
    let tone = if m.index == app.selected { Tone::Selection } else { Tone::Normal };
    match app.rows@[m.index as int] {
        CatalogRow::Group(root) => seq![(spec_ellipsize(spec_group_label(app, root@), width), TextStyle { bold: false, tone })],
        CatalogRow::Script(_) => match app.spec_row_script(m.index as int) {
            Some(s) => toned(spec_format_row(s.name@, s.command@, width, m.positions@, app.theme.icons.play@), tone),
            None => Seq::empty(),
        },
    }
}

/// The text shown when a typed filter matches nothing.
pub open spec fn spec_no_match(app: SidebarApp) -> Option<Seq<char>> {
    if app.search.query@.len() > 0 && app.search.matches@.len() == 0 {
        Some("No script matches \""@ + app.search.query@ + "\""@)
    } else {
        None
    }
}

/// The visible rows from `offset` on, `height` of them at most.
pub open spec fn window(m: Seq<FuzzyMatch>, offset: int, height: int) -> Seq<FuzzyMatch> {
    if offset >= m.len() {
        Seq::empty()
    } else if offset + height < m.len() {
        m.subrange(offset, offset + height)
    } else {
        m.subrange(offset, m.len() as int)
    }
}

/// The list: the no-match text, else the lines of the rows in the window.
pub open spec fn spec_list_lines(app: SidebarApp) -> Seq<Seq<(Seq<char>, TextStyle)>> {
    let height = app.spec_layout().list.height as int;
    match spec_no_match(app) {
        Some(text) => if height > 0 {
            seq![plain_line(spec_ellipsize(text, app.inner.width as int))]
        } else {
            Seq::empty()
        },
        None => window(app.search.matches@, app.list_offset as int, height).map_values(
            |m: FuzzyMatch| spec_row_line(app, m),
        ),
    }
}

/// The lines above the footer: header, search field when open, the list,
/// then empty lines down to the footer.
pub open spec fn spec_upper_lines(app: SidebarApp) -> Seq<Seq<(Seq<char>, TextStyle)>> {
    let g = app.spec_layout();
    let search = if g.search.height > 0 {
        seq![plain_line("/ "@ + app.search.query@)]
    } else {
        Seq::empty()
    };
    let top = seq![spec_header_line(app)] + search + spec_list_lines(app);
    let target = 1 + g.search.height + g.list.height;
    top + Seq::new(if target > top.len() { (target - top.len()) as nat } else { 0 }, |i: int| Seq::empty())
}

/// Everything the sidebar shows: a pane too small for the list says so; a
/// catalogue that could not be read shows its error and notes; otherwise
/// the upper lines, the footer scrolled by the footer offset, and the status
/// lines.
pub open spec fn spec_sidebar_lines(app: SidebarApp) -> Seq<Seq<(Seq<char>, TextStyle)>> {
    if app.spec_too_small() {
        seq![plain_line(error_text(AppError::TerminalTooSmall))]
    } else {
        match app.listed.catalog {
            Err(e) => seq![plain_line(error_text(e))] + (if app.listed.used_start_cwd {
                seq![plain_line(CWD_FALLBACK_NOTE@)]
            } else {
                Seq::empty()
            }),
            Ok(_) => spec_upper_lines(app) + seq![
                seq![(spec_scroll_text(app.spec_selected_detail(), app.footer_offset as int, app.inner.width as int), TextStyle { bold: false, tone: Tone::Footer })],
            ] + app.spec_status_lines().map_values(|s: Seq<char>| plain_line(s)),
        }
    }
}

fn plain() -> (r: TextStyle)
    ensures
        r == plain_style(),
{
    TextStyle { bold: false, tone: Tone::Normal }
}

fn one_span(text: String, style: TextStyle) -> (r: Vec<StyledSpan>)
    ensures
        line_view(r@) == seq![(text@, style)],
{
    let mut v: Vec<StyledSpan> = Vec::new();
    v.push((text, style));
    assert(line_view(v@) =~= seq![(text@, style)]);
    v
}

fn push_span(line: &mut Vec<StyledSpan>, text: String, style: TextStyle)
    ensures
        line_view(final(line)@) == line_view(old(line)@).push((text@, style)),
{
    line.push((text, style));
    assert(line_view(line@) =~= line_view(old(line)@).push((text@, style)));
}

fn push_line(lines: &mut Vec<Vec<StyledSpan>>, line: Vec<StyledSpan>)
    ensures
        lines_view(final(lines)@) == lines_view(old(lines)@).push(line_view(line@)),
{
    let ghost l = line_view(line@);
    lines.push(line);
    assert(lines_view(lines@) =~= lines_view(old(lines)@).push(l));
}

fn header_text(app: &SidebarApp) -> (r: String)
    ensures
        r@ == spec_header(*app),
{
    match &app.listed.catalog {
        Ok(ProjectCatalog::Workspace(w)) => {
            let mut s = decimal_text(w.packages.len());
            s.append(" packages");
            s
        },
        _ => match app.catalog() {
            Some(c) => {
                let mut s = copy_string(&c.display_name);
                s.append("  ");
                s.append(c.manager.as_str());
                s
            },
            None => String::new(),
        },
    }
}

fn header_line(app: &SidebarApp) -> (r: Vec<StyledSpan>)
    ensures
        line_view(r@) == spec_header_line(*app),
{
    let geo = app.layout();
    let width = app.inner.width as usize;
    let mag = geo.magnifier.width as usize;
    let room = if width > mag { width - mag } else { 0 };
    let title = ellipsize(header_text(app).as_str(), room);
    let used = width_of_text(title.as_str());
    let mut line = one_span(title, TextStyle { bold: true, tone: Tone::Normal });
    if mag > 0 {
        if used < width && mag < width - used {
            push_span(&mut line, space_text(width - used - mag), plain());
        }
        push_span(&mut line, owned(app.theme.icons.search), TextStyle { bold: false, tone: Tone::Accent });
    }
    line
}

fn group_label(app: &SidebarApp, root: &String) -> (r: String)
    ensures
        r@ == spec_group_label(*app, root@),
{
    let mut out = if app.group_is_open(root.as_str()) { owned("-") } else { owned("+") };
    if let Some(w) = app.workspace() {
        if let Some(i) = find_member(&w.packages, root.as_str()) {
            let p = &w.packages[i];
            out.append(" [");
            out.append(p.relative_path.as_str());
            out.append("] ");
            match &p.catalog {
                Ok(c) => {
                    out.append(c.display_name.as_str());
                    out.append(" [");
                    out.append(p.relative_path.as_str());
                    out.append("] ");
                    out.append(c.manager.as_str());
                    if c.scripts.len() == 0 {
                        out.append(" - No scripts");
                    }
                },
                Err(e) => {
                    out.append(p.relative_path.as_str());
                    out.append(": ");
                    let message = e.message();
                    out.append(message.as_str());
                },
            }
            return out;
        }
    }
    out.append(" ");
    out.append(root.as_str());
    out
}

fn row_line(app: &SidebarApp, m: &FuzzyMatch) -> (r: Vec<StyledSpan>)
    requires
        m.index < app.rows@.len(),
    ensures
        line_view(r@) == spec_row_line(*app, *m),
{
    let width = app.inner.width as usize;
    let tone = if m.index == app.selected { Tone::Selection } else { Tone::Normal };
    match &app.rows[m.index] {
        CatalogRow::Group(root) => one_span(ellipsize(group_label(app, root).as_str(), width), TextStyle { bold: false, tone }),
        CatalogRow::Script(_) => match app.row_script(m.index) {
            Some(script) => {
                let spans = format_row(script, width, m.positions.as_slice(), app.theme.icons.play);
                let ghost want = toned(spans_view(spans@), tone);
                let mut line: Vec<StyledSpan> = Vec::new();
                let mut k: usize = 0;
                while k < spans.len()
                    invariant
                        k <= spans@.len(),
                        want == toned(spans_view(spans@), tone),
                        line_view(line@) == want.take(k as int),
                    decreases spans.len() - k,
                {
                    let text = copy_string(&spans[k].0);
                    push_span(&mut line, text, TextStyle { bold: spans[k].1, tone });
                    assert(want.take(k + 1) =~= want.take(k as int).push(want[k as int]));
                    k += 1;
                }
                assert(want.take(spans@.len() as int) =~= want);
                line
            },
            None => Vec::new(),
        },
    }
}

fn list_lines(app: &SidebarApp, lines: &mut Vec<Vec<StyledSpan>>)
    requires
        app.well_formed(),
    ensures
        lines_view(final(lines)@) == lines_view(old(lines)@) + spec_list_lines(*app),
{
    let width = app.inner.width as usize;
    let height = app.list_height();
    if !app.search.query.as_str().is_empty() && app.search.matches.len() == 0 {
        let mut text = owned("No script matches \"");
        text.append(app.search.query.as_str());
        text.append("\"");
        assert(spec_no_match(*app) == Some(text@));
        if height > 0 {
            push_line(lines, one_span(ellipsize(text.as_str(), width), plain()));
        }
        return;
    }
    assert(spec_no_match(*app) is None);
    let ms = &app.search.matches;
    let ghost shown = window(ms@, app.list_offset as int, height as int).map_values(|m: FuzzyMatch| spec_row_line(*app, m));
    let ghost start = lines_view(lines@);
    if app.list_offset >= ms.len() {
        assert(shown =~= Seq::empty());
        return;
    }
    let mut k: usize = app.list_offset;
    let end: usize = if height < ms.len() - app.list_offset {
        app.list_offset + height
    } else {
        ms.len()
    };
    assert(shown.len() == end - app.list_offset);
    while k < end
        invariant
            app.list_offset <= k <= end <= ms@.len(),
            ms@ == app.search.matches@,
            end - app.list_offset == shown.len(),
            app.well_formed(),
            shown == window(ms@, app.list_offset as int, height as int).map_values(|m: FuzzyMatch| spec_row_line(*app, m)),
            lines_view(lines@) == start + shown.take(k - app.list_offset),
        decreases end - k,
    {
        assert(k < ms@.len());
        assert(ms@[k as int].index < app.rows@.len());
        let line = row_line(app, &ms[k]);
        push_line(lines, line);
        assert(shown[k - app.list_offset] == spec_row_line(*app, ms@[k as int]));
        assert(shown.take(k + 1 - app.list_offset) =~= shown.take(k - app.list_offset).push(shown[k - app.list_offset]));
        k += 1;
    }
    assert(shown.take(end - app.list_offset) =~= shown);
    assert(lines_view(lines@) == start + shown);
}

/// Every line the sidebar shows.
pub fn sidebar_lines(app: &SidebarApp) -> (r: Vec<Vec<StyledSpan>>)
    requires
        app.well_formed(),
    ensures
        lines_view(r@) == spec_sidebar_lines(*app),
{
    let mut lines: Vec<Vec<StyledSpan>> = Vec::new();
    if app.too_small() {
        push_line(&mut lines, one_span(AppError::TerminalTooSmall.message(), plain()));
        assert(lines_view(lines@) =~= spec_sidebar_lines(*app));
        return lines;
    }
    if let Err(error) = &app.listed.catalog {
        push_line(&mut lines, one_span(error.message(), plain()));
        if app.listed.used_start_cwd {
            push_line(&mut lines, one_span(owned(CWD_FALLBACK_NOTE), plain()));
        }
        assert(lines_view(lines@) =~= spec_sidebar_lines(*app));
        return lines;
    }
    let geo = app.layout();
    push_line(&mut lines, header_line(app));
    let ghost search = if geo.search.height > 0 {
        seq![plain_line("/ "@ + app.search.query@)]
    } else {
        Seq::<Seq<(Seq<char>, TextStyle)>>::empty()
    };
    if geo.search.height > 0 {
        let mut text = owned("/ ");
        text.append(app.search.query.as_str());
        push_line(&mut lines, one_span(text, plain()));
    }
    assert(lines_view(lines@) =~= seq![spec_header_line(*app)] + search);
    list_lines(app, &mut lines);
    assert(lines_view(lines@) =~= seq![spec_header_line(*app)] + search + spec_list_lines(*app));
    let ghost top = lines_view(lines@);
    let target = 1 + geo.search.height as usize + geo.list.height as usize;
    while lines.len() < target
        invariant
            top.len() <= lines@.len(),
            lines@.len() == top.len() || lines@.len() <= target,
            lines_view(lines@) == top + Seq::new((lines@.len() - top.len()) as nat, |i: int| Seq::<(Seq<char>, TextStyle)>::empty()),
        decreases target - lines.len(),
    {
        let ghost before = lines_view(lines@);
        push_line(&mut lines, Vec::new());
        assert(line_view(Seq::<StyledSpan>::empty()) =~= Seq::empty());
        assert(lines_view(lines@) =~= top + Seq::new((lines@.len() - top.len()) as nat, |i: int| Seq::<(Seq<char>, TextStyle)>::empty()));
    }
    assert(lines_view(lines@) =~= spec_upper_lines(*app));
    let detail = app.selected_detail();
    let width = app.inner.width as usize;
    push_line(&mut lines, one_span(scroll_text(detail.as_str(), app.footer_offset, width), TextStyle { bold: false, tone: Tone::Footer }));
    let status = app.status_lines();
    let ghost mid = lines_view(lines@);
    let ghost tail = app.spec_status_lines().map_values(|s: Seq<char>| plain_line(s));
    let mut k: usize = 0;
    while k < status.len()
        invariant
            k <= status@.len(),
            tail == app.spec_status_lines().map_values(|s: Seq<char>| plain_line(s)),
            status@.map_values(|s: String| s@) == app.spec_status_lines(),
            lines_view(lines@) == mid + tail.take(k as int),
        decreases status.len() - k,
    {
        push_line(&mut lines, one_span(copy_string(&status[k]), plain()));
        assert(tail[k as int] == plain_line(status@[k as int]@));
        assert(tail.take(k + 1) =~= tail.take(k as int).push(tail[k as int]));
        k += 1;
    }
    assert(tail.take(status@.len() as int) =~= tail);
    lines
}

/// Where the terminal cursor goes: in the open search field, after the query,
/// never past the field's last column.
pub open spec fn spec_cursor(app: SidebarApp) -> Option<(int, int)> {
    let g = app.spec_layout();
    if app.search.mode == SearchMode::Editing && g.search.height > 0 {
        let query_cols = if (text_width(app.search.query@) as int) < sat_sub(g.search.width as int, 2) {
            text_width(app.search.query@) as int
        } else {
            sat_sub(g.search.width as int, 2)
        };
        let x = sat_add(g.search.x as int, 2 + query_cols);
        let last = sat_add(g.search.x as int, sat_sub(g.search.width as int, 1));
        Some((if x < last { x } else { last }, g.search.y as int))
    } else {
        None
    }
}

pub fn cursor_position(app: &SidebarApp) -> (r: Option<(u16, u16)>)
    ensures
        match spec_cursor(*app) {
            Some((x, y)) => match r {
                Some(p) => p.0 == x && p.1 == y,
                None => false,
            },
            None => r is None,
        },
{
    let geo = app.layout();
    if !(app.search.is_editing() && geo.search.height > 0) {
        return None;
    }
    let room = geo.search.width.saturating_sub(2) as usize;
    let query = width_of_text(app.search.query.as_str());
    let cols: u16 = if query < room { query as u16 } else { room as u16 };
    let x = geo.search.x.saturating_add(2 + cols);
    let last = geo.search.x.saturating_add(geo.search.width.saturating_sub(1));
    Some((if x < last { x } else { last }, geo.search.y))
}

} // verus!
