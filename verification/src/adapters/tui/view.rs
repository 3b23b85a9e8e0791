//! Geometry of the column and the text fitted into it. Drawing belongs to
//! the program; these functions decide where things go and what fits.

use vstd::prelude::*;

use super::theme::{pad_icon, padded_icon};
use crate::domain::catalog::Script;
use crate::domain::text::{cell_width, chars_of, push_char, text_width, width_of_char, width_of_text};

verus! {

/// Play glyph plus the following spacer. Shared by the row text, the row
/// zones and the mouse hit-test.
pub const ICON_GUTTER_COLS: u16 = 2;

/// A rectangle of terminal cells. Built with `Rect::new`, it never reaches
/// past the last cell coordinate.
#[derive(Debug, Clone, Copy, PartialEq, Eq, Structural, Default)]
pub struct Rect {
    pub x: u16,
    pub y: u16,
    pub width: u16,
    pub height: u16,
}

/// `a + b`, saturating at the largest cell coordinate.
pub open spec fn sat_add(a: int, b: int) -> int {
    if a + b > u16::MAX {
        u16::MAX as int
    } else {
        a + b
    }
}

/// `a - b`, saturating at zero.
pub open spec fn sat_sub(a: int, b: int) -> int {
    if a - b < 0 {
        0
    } else {
        a - b
    }
}

pub open spec fn min(a: int, b: int) -> int {
    if a < b {
        a
    } else {
        b
    }
}

/// The rectangle `Rect::new` builds: width and height are cut so that it ends
/// at the last cell coordinate at most.
pub open spec fn rect(x: int, y: int, width: int, height: int) -> Rect {
    Rect {
        x: x as u16,
        y: y as u16,
        width: (sat_add(x, width) - x) as u16,
        height: (sat_add(y, height) - y) as u16,
    }
}

impl Rect {
    pub fn new(x: u16, y: u16, width: u16, height: u16) -> (r: Rect)
        ensures
            r == rect(x as int, y as int, width as int, height as int),
    {
        Rect { x, y, width: x.saturating_add(width) - x, height: y.saturating_add(height) - y }
    }

    /// The cell lies inside the rectangle.
    pub open spec fn holds(self, column: int, row: int) -> bool {
        self.x <= column < sat_add(self.x as int, self.width as int) && self.y <= row < sat_add(
            self.y as int,
            self.height as int,
        )
    }

    pub fn contains(&self, column: u16, row: u16) -> (r: bool)
        ensures
            r == self.holds(column as int, row as int),
    {
        column >= self.x && column < self.x.saturating_add(self.width) && row >= self.y && row
            < self.y.saturating_add(self.height)
    }
}

/// Rectangles actually painted inside the pane border.
#[derive(Debug, Clone, Copy, PartialEq, Eq, Structural)]
pub struct ColumnGeometry {
    pub inner: Rect,
    pub header: Rect,
    pub magnifier: Rect,
    pub search: Rect,
    pub list: Rect,
    pub command: Rect,
    pub status: Rect,
    pub icon_gutter_width: u16,
}

/// Heights of the bands, top to bottom: header, search, list, command, status.
pub open spec fn band_heights(height: int, status_lines: int, editing: bool) -> (int, int, int, int, int) {
    let header_h = min(1, height);
    let search_h = if editing {
        min(1, sat_sub(height, header_h))
    } else {
        0
    };
    let command_h = min(1, sat_sub(height, header_h + search_h));
    let status_h = min(status_lines % 0x10000, sat_sub(height, header_h + search_h + command_h));
    let list_h = sat_sub(height, header_h + search_h + command_h + status_h);
    (header_h, search_h, list_h, command_h, status_h)
}

/// The column layout: bands stacked from the top of `inner`, each as wide as
/// it; the magnifier at the right end of the header when it is shown.
pub open spec fn spec_layout(
    inner: Rect,
    status_lines: int,
    editing: bool,
    show_magnifier: bool,
    magnifier_cols: int,
) -> ColumnGeometry {
    let h = band_heights(inner.height as int, status_lines, editing);
    let header = rect(inner.x as int, inner.y as int, inner.width as int, h.0);
    let magnifier = if show_magnifier && header.width > 0 && header.height > 0 {
        let w = min(magnifier_cols, header.width as int);
        rect(
            sat_add(header.x as int, sat_sub(header.width as int, w)),
            header.y as int,
            w,
            header.height as int,
        )
    } else {
        rect(0, 0, 0, 0)
    };
    let search = rect(inner.x as int, sat_add(inner.y as int, header.height as int), inner.width as int, h.1);
    let list = rect(inner.x as int, sat_add(search.y as int, search.height as int), inner.width as int, h.2);
    let command = rect(inner.x as int, sat_add(list.y as int, list.height as int), inner.width as int, h.3);
    let status = rect(inner.x as int, sat_add(command.y as int, command.height as int), inner.width as int, h.4);
    ColumnGeometry {
        inner,
        header,
        magnifier,
        search,
        list,
        command,
        status,
        icon_gutter_width: ICON_GUTTER_COLS,
    }
}

#[verifier::rlimit(50)]
pub fn column_layout(
    inner: Rect,
    status_line_count: usize,
    search_editing: bool,
    show_magnifier: bool,
    magnifier_cols: u16,
) -> (r: ColumnGeometry)
    ensures
        r == spec_layout(
            inner,
            status_line_count as int,
            search_editing,
            show_magnifier,
            magnifier_cols as int,
        ),
{
    let height = inner.height;
    let header_h: u16 = if height < 1 {
        height
    } else {
        1
    };
    let search_h: u16 = if search_editing {
        let rest = height.saturating_sub(header_h);
        if rest < 1 {
            rest
        } else {
            1
        }
    } else {
        0
    };
    let rest = height.saturating_sub(header_h + search_h);
    let command_h: u16 = if rest < 1 {
        rest
    } else {
        1
    };
    let wanted: u16 = (status_line_count % 0x10000) as u16;
    let rest = height.saturating_sub(header_h + search_h + command_h);
    let status_h: u16 = if wanted < rest {
        wanted
    } else {
        rest
    };
    let list_h = height.saturating_sub(header_h + search_h + command_h + status_h);
    let header = Rect::new(inner.x, inner.y, inner.width, header_h);
    let magnifier = if show_magnifier && header.width > 0 && header.height > 0 {
        let width = if magnifier_cols < header.width {
            magnifier_cols
        } else {
            header.width
        };
        Rect::new(
            header.x.saturating_add(header.width.saturating_sub(width)),
            header.y,
            width,
            header.height,
        )
    } else {
        Rect::new(0, 0, 0, 0)
    };
    let search = Rect::new(inner.x, inner.y.saturating_add(header.height), inner.width, search_h);
    let list = Rect::new(inner.x, search.y.saturating_add(search.height), inner.width, list_h);
    let command = Rect::new(inner.x, list.y.saturating_add(list.height), inner.width, command_h);
    let status = Rect::new(inner.x, command.y.saturating_add(command.height), inner.width, status_h);
    ColumnGeometry {
        inner,
        header,
        magnifier,
        search,
        list,
        command,
        status,
        icon_gutter_width: ICON_GUTTER_COLS,
    }
}

/// The layout without the search field, with a one-column magnifier.
pub fn column_geometry(inner: Rect, status_line_count: usize) -> (r: ColumnGeometry)
    ensures
        r == spec_layout(inner, status_line_count as int, false, true, 1),
{
    column_layout(inner, status_line_count, false, true, 1)
}

/// The bands of the column fill its inner height exactly, top to bottom,
/// each starting where the one above ends.
pub proof fn lemma_bands_fill_the_column(
    inner: Rect,
    status_lines: int,
    editing: bool,
    show_magnifier: bool,
    magnifier_cols: int,
)
    requires
        inner.y + inner.height <= u16::MAX,
        status_lines >= 0,
    ensures
        ({
            let g = spec_layout(inner, status_lines, editing, show_magnifier, magnifier_cols);
            &&& g.header.height + g.search.height + g.list.height + g.command.height
                + g.status.height == inner.height
            &&& g.header.y == inner.y
            &&& g.search.y == g.header.y + g.header.height
            &&& g.list.y == g.search.y + g.search.height
            &&& g.command.y == g.list.y + g.list.height
            &&& g.status.y == g.command.y + g.command.height
            &&& g.command.height == (if inner.height as int - g.header.height - g.search.height > 0 { 1int } else { 0int })
        }),
{
}

impl ColumnGeometry {
    /// The row of the list under a cell, counted from the top of the whole
    /// list, when it is one of the `script_count` rows.
    pub fn script_index(&self, column: u16, row: u16, list_offset: usize, script_count: usize) -> (r:
        Option<usize>)
        ensures
            match r {
                Some(i) => self.list.holds(column as int, row as int) && i == list_offset + (row
                    - self.list.y) && i < script_count,
                None => !self.list.holds(column as int, row as int) || list_offset + (row
                    - self.list.y) >= script_count,
            },
    {
        if !self.list.contains(column, row) {
            return None;
        }
        let step = (row - self.list.y) as usize;
        if list_offset >= script_count || step >= script_count - list_offset {
            return None;
        }
        Some(list_offset + step)
    }

    /// The cell lies in the play-icon gutter of a list row.
    pub open spec fn hits_icon_gutter_at(self, column: int, row: int) -> bool {
        self.list.y <= row < sat_add(self.list.y as int, self.list.height as int) && self.list.x
            <= column < sat_add(self.list.x as int, self.icon_gutter_width as int)
    }

    /// The cell lies in the play-icon gutter of a list row.
    pub fn hits_icon_gutter(&self, column: u16, row: u16) -> (r: bool)
        ensures
            r == (self.list.y <= row < sat_add(self.list.y as int, self.list.height as int)
                && self.list.x <= column < sat_add(
                self.list.x as int,
                self.icon_gutter_width as int,
            )),
    {
        if row < self.list.y || row >= self.list.y.saturating_add(self.list.height) {
            return false;
        }
        column >= self.list.x && column < self.list.x.saturating_add(self.icon_gutter_width)
    }
}

/// The part of a row a column falls in.
pub open spec fn spec_row_zone(inner: Rect, column: int) -> Seq<char> {
    let x = sat_sub(column, inner.x as int);
    if x < ICON_GUTTER_COLS {
        "play icon"@
    } else if x < inner.width / 3 {
        "script name"@
    } else if x < sat_sub(inner.width as int, 2) {
        "command text"@
    } else {
        "trailing space"@
    }
}

pub fn row_zone(inner: Rect, column: u16) -> (r: &'static str)
    ensures
        r@ == spec_row_zone(inner, column as int),
{
    let x = column.saturating_sub(inner.x);
    if x < ICON_GUTTER_COLS {
        "play icon"
    } else if x < inner.width / 3 {
        "script name"
    } else if x < inner.width.saturating_sub(2) {
        "command text"
    } else {
        "trailing space"
    }
}

/// How many leading characters fit in `budget` columns, taken greedily.
pub open spec fn fit_count(s: Seq<char>, budget: int) -> nat
    decreases s.len(),
{
    if s.len() == 0 || cell_width(s[0]) > budget {
        0
    } else {
        1 + fit_count(s.skip(1), budget - cell_width(s[0]))
    }
}

/// A text cut to `max` columns: whole when it fits, else as many leading
/// characters as fit before an ellipsis.
pub open spec fn spec_ellipsize(text: Seq<char>, max: int) -> Seq<char> {
    if max <= 0 {
        Seq::empty()
    } else if text_width(text) <= max {
        text
    } else if max == 1 {
        seq!['…']
    } else {
        text.take(fit_count(text, max - 1) as int).push('…')
    }
}

proof fn lemma_fit_step(s: Seq<char>, k: int, budget: int, used: int)
    requires
        0 <= k < s.len(),
        0 <= used,
        fit_count(s, budget) == k + fit_count(s.skip(k), budget - used),
        cell_width(s[k]) <= budget - used,
    ensures
        fit_count(s, budget) == k + 1 + fit_count(s.skip(k + 1), budget - used - cell_width(s[k])),
{
    assert(s.skip(k)[0] == s[k]);
    assert(s.skip(k).skip(1) =~= s.skip(k + 1));
}

proof fn lemma_fit_stop(s: Seq<char>, k: int, budget: int, used: int)
    requires
        0 <= k <= s.len(),
        fit_count(s, budget) == k + fit_count(s.skip(k), budget - used),
        k == s.len() || cell_width(s[k]) > budget - used,
    ensures
        fit_count(s, budget) == k,
{
    if k < s.len() {
        assert(s.skip(k)[0] == s[k]);
    }
}

pub fn ellipsize(text: &str, max_cells: usize) -> (r: String)
    ensures
        r@ == spec_ellipsize(text@, max_cells as int),
{
    if max_cells == 0 {
        return String::new();
    }
    if width_of_text(text) <= max_cells {
        return String::from_str(text);
    }
    if max_cells == 1 {
        let mut out = String::new();
        push_char(&mut out, '…');
        return out;
    }
    let chars = chars_of(text);
    let budget = max_cells - 1;
    let mut out = String::new();
    let mut used: usize = 0;
    let mut k: usize = 0;
    assert(chars@.skip(0) =~= chars@);
    while k < chars.len()
        invariant
            chars@ == text@,
            k <= chars@.len(),
            used <= budget,
            out@ == chars@.take(k as int),
            fit_count(chars@, budget as int) == k + fit_count(chars@.skip(k as int), budget - used),
        ensures
            chars@ == text@,
            k <= chars@.len(),
            used <= budget,
            out@ == chars@.take(k as int),
            fit_count(chars@, budget as int) == k + fit_count(chars@.skip(k as int), budget - used),
            k == chars@.len() || cell_width(chars@[k as int]) > budget - used,
        decreases chars.len() - k,
    {
        let c = chars[k];
        let w: usize = match width_of_char(c) {
            Some(w) => w,
            None => 0,
        };
        assert(w as nat == cell_width(c));
        if w > budget - used {
            break;
        }
        proof {
            lemma_fit_step(chars@, k as int, budget as int, used as int);
        }
        push_char(&mut out, c);
        used += w;
        k += 1;
        assert(out@ =~= chars@.take(k as int));
    }
    proof {
        lemma_fit_stop(chars@, k as int, budget as int, used as int);
    }
    push_char(&mut out, '…');
    out
}

/// How many leading characters a scroll of `offset` columns passes over: a
/// character is skipped while the columns skipped before it stay short of the
/// offset.
pub open spec fn skip_count(s: Seq<char>, offset: int) -> nat
    decreases s.len(),
{
    if offset <= 0 || s.len() == 0 {
        0
    } else {
        1 + skip_count(s.skip(1), offset - cell_width(s[0]))
    }
}

/// A text scrolled left by `offset` columns and cut to `width`.
pub open spec fn spec_scroll_text(text: Seq<char>, offset: int, width: int) -> Seq<char> {
    if width <= 0 {
        Seq::empty()
    } else {
        spec_ellipsize(text.skip(skip_count(text, offset) as int), width)
    }
}

pub fn scroll_text(text: &str, offset: usize, width: usize) -> (r: String)
    ensures
        r@ == spec_scroll_text(text@, offset as int, width as int),
{
    if width == 0 {
        return String::new();
    }
    let chars = chars_of(text);
    let mut skipped: usize = 0;
    let mut k: usize = 0;
    assert(chars@.skip(0) =~= chars@);
    while k < chars.len() && skipped < offset
        invariant
            chars@ == text@,
            k <= chars@.len(),
            skip_count(chars@, offset as int) == k + skip_count(chars@.skip(k as int), offset - skipped),
        decreases chars.len() - k,
    {
        let w: usize = match width_of_char(chars[k]) {
            Some(w) => w,
            None => 0,
        };
        assert(w as nat == cell_width(chars@[k as int]));
        assert(chars@.skip(k as int)[0] == chars@[k as int]);
        assert(chars@.skip(k as int).skip(1) =~= chars@.skip(k + 1));
        let ghost before = offset - skipped;
        assert(skip_count(chars@.skip(k as int), before) == 1 + skip_count(
            chars@.skip(k + 1),
            before - w,
        ));
        skipped = if w > offset - skipped {
            offset
        } else {
            skipped + w
        };
        assert(skip_count(chars@.skip(k + 1), before - w) == skip_count(
            chars@.skip(k + 1),
            offset - skipped,
        ));
        k += 1;
    }
    let rest = crate::domain::text::string_of(&chars.as_slice()[k..chars.len()]);
    assert(rest@ =~= text@.skip(k as int));
    ellipsize(rest.as_str(), width)
}

/// Columns of a text counted character by character.
pub open spec fn sum_width(s: Seq<char>) -> nat
    decreases s.len(),
{
    if s.len() == 0 {
        0
    } else {
        sum_width(s.drop_last()) + cell_width(s.last())
    }
}

/// The character position is among the highlighted ones.
pub open spec fn marked(highlights: Seq<usize>, i: int) -> bool {
    exists|j: int| 0 <= j < highlights.len() && highlights[j] == i
}

/// One span per character of the first `n`, bold where highlighted.
pub open spec fn char_spans(s: Seq<char>, highlights: Seq<usize>, n: int) -> Seq<(Seq<char>, bool)> {
    Seq::new(n as nat, |i: int| (seq![s[i]], marked(highlights, i)))
}

/// Spans dropped from the end while the row still reaches the budget.
pub open spec fn pop_spans(spans: Seq<(Seq<char>, bool)>, used: int, budget: int) -> (Seq<
    (Seq<char>, bool),
>, int)
    decreases spans.len(),
{
    if used < budget || spans.len() == 0 {
        (spans, used)
    } else {
        pop_spans(spans.drop_last(), sat_sub(used, text_width(spans.last().0) as int), budget)
    }
}

/// The name drawn in `budget` columns: its leading characters that fit, bold
/// where highlighted; a name that does not fit ends with an ellipsis.
pub open spec fn spec_highlight(name: Seq<char>, highlights: Seq<usize>, budget: int) -> (Seq<
    (Seq<char>, bool),
>, int) {
    if budget <= 0 {
        (Seq::empty(), 0)
    } else {
        let n = fit_count(name, budget) as int;
        let spans = char_spans(name, highlights, n);
        let used = sum_width(name.take(n)) as int;
        if text_width(name) > budget {
            if budget == 1 {
                (seq![(seq!['…'], false)], 1)
            } else {
                let p = pop_spans(spans, used, budget);
                if p.1 + 1 <= budget {
                    (p.0.push((seq!['…'], false)), p.1 + 1)
                } else {
                    p
                }
            }
        } else {
            (spans, used)
        }
    }
}

/// Spans by their text.
pub open spec fn spans_view(spans: Seq<(String, bool)>) -> Seq<(Seq<char>, bool)> {
    spans.map_values(|p: (String, bool)| (p.0@, p.1))
}

fn is_marked(highlights: &[usize], i: usize) -> (r: bool)
    ensures
        r == marked(highlights@, i as int),
{
    let mut j: usize = 0;
    while j < highlights.len()
        invariant
            j <= highlights@.len(),
            forall|t: int| 0 <= t < j ==> highlights@[t] != i,
        decreases highlights.len() - j,
    {
        if highlights[j] == i {
            return true;
        }
        j += 1;
    }
    false
}

fn one_char(c: char) -> (r: String)
    ensures
        r@ == seq![c],
{
    let mut s = String::new();
    push_char(&mut s, c);
    assert(s@ =~= seq![c]);
    s
}

pub fn highlight_name(name: &str, highlights: &[usize], budget: usize) -> (r: (Vec<(String, bool)>, usize))
    ensures
        (spans_view(r.0@), r.1 as int) == spec_highlight(name@, highlights@, budget as int),
        r.1 <= budget,
{
    if budget == 0 {
        let empty: Vec<(String, bool)> = Vec::new();
        assert(spans_view(empty@) =~= Seq::<(Seq<char>, bool)>::empty());
        return (empty, 0);
    }
    let chars = chars_of(name);
    let mut spans: Vec<(String, bool)> = Vec::new();
    let mut used: usize = 0;
    let mut k: usize = 0;
    assert(chars@.skip(0) =~= chars@);
    assert(chars@.take(0) =~= Seq::<char>::empty());
    while k < chars.len()
        invariant
            chars@ == name@,
            k <= chars@.len(),
            used <= budget,
            used == sum_width(chars@.take(k as int)),
            spans_view(spans@) == char_spans(chars@, highlights@, k as int),
            fit_count(chars@, budget as int) == k + fit_count(chars@.skip(k as int), budget - used),
        ensures
            chars@ == name@,
            k <= chars@.len(),
            used <= budget,
            used == sum_width(chars@.take(k as int)),
            spans_view(spans@) == char_spans(chars@, highlights@, k as int),
            fit_count(chars@, budget as int) == k + fit_count(chars@.skip(k as int), budget - used),
            k == chars@.len() || cell_width(chars@[k as int]) > budget - used,
        decreases chars.len() - k,
    {
        let c = chars[k];
        let w: usize = match width_of_char(c) {
            Some(w) => w,
            None => 0,
        };
        assert(w as nat == cell_width(c));
        if w > budget - used {
            break;
        }
        proof {
            lemma_fit_step(chars@, k as int, budget as int, used as int);
            assert(chars@.take(k + 1).drop_last() =~= chars@.take(k as int));
        }
        let bold = is_marked(highlights, k);
        let ghost before = spans@;
        spans.push((one_char(c), bold));
        assert(spans_view(spans@) =~= spans_view(before).push((seq![c], bold)));
        used += w;
        k += 1;
        assert(spans_view(spans@) =~= char_spans(chars@, highlights@, k as int));
    }
    proof {
        lemma_fit_stop(chars@, k as int, budget as int, used as int);
    }
    if width_of_text(name) > budget {
        if budget == 1 {
            let mut one: Vec<(String, bool)> = Vec::new();
            one.push((one_char('…'), false));
            assert(spans_view(one@) =~= seq![(seq!['…'], false)]);
            return (one, 1);
        }
        let ghost full = spans_view(spans@);
        let ghost used0 = used as int;
        while used >= budget && spans.len() > 0
            invariant
                budget > 1,
                used <= budget,
                pop_spans(full, used0, budget as int) == pop_spans(
                    spans_view(spans@),
                    used as int,
                    budget as int,
                ),
            decreases spans.len(),
        {
            let ghost before = spans_view(spans@);
            let last = spans.pop();
            match last {
                Some(span) => {
                    assert(before.last() == (span.0@, span.1));
                    assert(spans_view(spans@) =~= before.drop_last());
                    let w = width_of_text(span.0.as_str());
                    used = used.saturating_sub(w);
                },
                None => {},
            }
        }
        if used < budget {
            let ghost before = spans@;
            spans.push((one_char('…'), false));
            assert(spans_view(spans@) =~= spans_view(before).push((seq!['…'], false)));
            used += 1;
        }
    }
    (spans, used)
}

/// A script row: the padded play glyph, the name in a third of the rest
/// (one column at least), then a space and the command in what remains.
pub open spec fn spec_format_row(
    name: Seq<char>,
    command: Seq<char>,
    width: int,
    highlights: Seq<usize>,
    play: Seq<char>,
) -> Seq<(Seq<char>, bool)> {
    let gutter = ICON_GUTTER_COLS as int;
    let rest = sat_sub(width, gutter);
    let name_budget = if rest / 3 < 1 {
        1
    } else {
        rest / 3
    };
    let (name_spans, name_width) = spec_highlight(name, highlights, name_budget);
    let cmd_budget = sat_sub(width, gutter + name_width + 1);
    seq![(padded_icon(play, gutter as nat), false)] + name_spans + seq![
        (" "@ + spec_ellipsize(command, cmd_budget), false),
    ]
}

pub fn format_row(script: &Script, width: usize, highlights: &[usize], play: &str) -> (r: Vec<
    (String, bool),
>)
    ensures
        spans_view(r@) == spec_format_row(
            script.name@,
            script.command@,
            width as int,
            highlights@,
            play@,
        ),
{
    let gutter: usize = 2;
    let rest = width.saturating_sub(gutter);
    let name_budget = if rest / 3 < 1 {
        1
    } else {
        rest / 3
    };
    let (name_spans, name_width) = highlight_name(script.name.as_str(), highlights, name_budget);
    let cmd_budget = width.saturating_sub(gutter + name_width + 1);
    let command = ellipsize(script.command.as_str(), cmd_budget);
    let mut spans: Vec<(String, bool)> = Vec::new();
    spans.push((pad_icon(play, gutter), false));
    let ghost head = spans_view(spans@);
    let mut rest_spans = name_spans;
    let ghost names = spans_view(rest_spans@);
    let mut tail = String::from_str(" ");
    tail.append(command.as_str());
    let mut all = spans;
    all.append(&mut rest_spans);
    assert(spans_view(all@) =~= head + names);
    let ghost before = all@;
    all.push((tail, false));
    assert(spans_view(all@) =~= spans_view(before).push((" "@ + command@, false)));
    all
}

} // verus!
