//! Which pane of the origin tab donates space to the sidebar.

use vstd::prelude::*;

use super::error::AppError;
use super::ids::TabId;
use super::pane::{names_explorer, spec_is_explorer, spec_is_sidebar, LayoutPane, LayoutRect, LayoutSnapshot, PaneInfo};
use super::EXPLORER_TOKEN_KEY;
use super::text::{
    lemma_text_lt_irreflexive, lemma_text_lt_total, lemma_text_lt_transitive, same_text, text_less,
    text_lt,
};

verus! {

/// Position of the first layout entry, from `k` on, for the pane id.
pub open spec fn layout_slot_from(lp: Seq<LayoutPane>, id: Seq<char>, k: int) -> Option<int>
    decreases lp.len() - k,
{
    if k < 0 || k >= lp.len() {
        None
    } else if lp[k].pane_id@ == id {
        Some(k)
    } else {
        layout_slot_from(lp, id, k + 1)
    }
}

/// The rectangle that the layout gives a pane (its first entry).
pub open spec fn slot_rect(layout: LayoutSnapshot, id: Seq<char>) -> LayoutRect {
    layout.panes@[layout_slot_from(layout.panes@, id, 0)->0].rect
}

/// A pane that may receive the split: in the origin tab, neither this plugin's
/// sidebar nor the explorer, and placed in the layout.
pub open spec fn is_candidate(p: PaneInfo, layout: LayoutSnapshot, tab: TabId) -> bool {
    &&& p.tab_id@ == tab.0@
    &&& !spec_is_sidebar(p)
    &&& !spec_is_explorer(p)
    &&& layout_slot_from(layout.panes@, p.pane_id@, 0) is Some
}

/// The explorer is never split: a pane that carries the explorer's token, or
/// is labelled or titled as the explorer, is never a working target candidate,
/// wherever it sits.
pub proof fn lemma_explorer_is_never_a_candidate(p: PaneInfo, layout: LayoutSnapshot, tab: TabId)
    requires
        (exists|i: int| 0 <= i < p.tokens@.len() && (#[trigger] p.tokens@[i]).0@ == EXPLORER_TOKEN_KEY@)
            || names_explorer(p.label) || names_explorer(p.title),
    ensures
        !is_candidate(p, layout, tab),
{
}

/// The pane chosen as working target carries no explorer token and is not
/// labelled or titled as the explorer.
pub proof fn lemma_working_target_is_no_explorer(panes: Seq<PaneInfo>, layout: LayoutSnapshot, tab: TabId, i: int)
    requires
        is_working_target(panes, layout, tab, i),
    ensures
        forall|t: int| 0 <= t < panes[i].tokens@.len() ==> (#[trigger] panes[i].tokens@[t]).0@ != EXPLORER_TOKEN_KEY@,
        !names_explorer(panes[i].label),
        !names_explorer(panes[i].title),
{
    assert forall|t: int| 0 <= t < panes[i].tokens@.len() implies (#[trigger] panes[i].tokens@[t]).0@ != EXPLORER_TOKEN_KEY@ by {
        if panes[i].tokens@[t].0@ == EXPLORER_TOKEN_KEY@ {
            lemma_explorer_is_never_a_candidate(panes[i], layout, tab);
        }
    }
}

/// Order of working targets: leftmost, then highest, then pane id.
pub open spec fn placed_before(a: PaneInfo, b: PaneInfo, layout: LayoutSnapshot) -> bool {
    let ra = slot_rect(layout, a.pane_id@);
    let rb = slot_rect(layout, b.pane_id@);
    ra.x < rb.x || (ra.x == rb.x && (ra.y < rb.y || (ra.y == rb.y && text_lt(
        a.pane_id@,
        b.pane_id@,
    ))))
}

/// Two panes with the same place in that order.
pub open spec fn same_place(a: PaneInfo, b: PaneInfo, layout: LayoutSnapshot) -> bool {
    let ra = slot_rect(layout, a.pane_id@);
    let rb = slot_rect(layout, b.pane_id@);
    ra.x == rb.x && ra.y == rb.y && a.pane_id@ == b.pane_id@
}

/// The pane at `i` comes first among the candidates; equal places keep the
/// listing order.
pub open spec fn is_working_target(
    panes: Seq<PaneInfo>,
    layout: LayoutSnapshot,
    tab: TabId,
    i: int,
) -> bool {
    &&& 0 <= i < panes.len()
    &&& is_candidate(panes[i], layout, tab)
    &&& forall|j: int|
        0 <= j < panes.len() && j != i && is_candidate(#[trigger] panes[j], layout, tab)
            ==> placed_before(panes[i], panes[j], layout) || (same_place(panes[i], panes[j], layout)
            && i < j)
}

proof fn lemma_place_order(a: PaneInfo, b: PaneInfo, c: PaneInfo, layout: LayoutSnapshot)
    ensures
        placed_before(a, b, layout) && placed_before(b, c, layout) ==> placed_before(a, c, layout),
        placed_before(a, b, layout) && same_place(b, c, layout) ==> placed_before(a, c, layout),
        placed_before(a, b, layout) || placed_before(b, a, layout) || same_place(a, b, layout),
        !placed_before(a, a, layout),
{
    lemma_text_lt_total(a.pane_id@, b.pane_id@);
    lemma_text_lt_irreflexive(a.pane_id@);
    if text_lt(a.pane_id@, b.pane_id@) && text_lt(b.pane_id@, c.pane_id@) {
        lemma_text_lt_transitive(a.pane_id@, b.pane_id@, c.pane_id@);
    }
}

fn layout_slot(layout: &LayoutSnapshot, id: &str) -> (r: Option<usize>)
    ensures
        match r {
            Some(k) => k < layout.panes@.len() && layout.panes@[k as int].pane_id@ == id@
                && layout_slot_from(layout.panes@, id@, 0) == Some(k as int),
            None => layout_slot_from(layout.panes@, id@, 0) is None,
        },
{
    let mut k: usize = 0;
    while k < layout.panes.len()
        invariant
            k <= layout.panes@.len(),
            layout_slot_from(layout.panes@, id@, 0) == layout_slot_from(
                layout.panes@,
                id@,
                k as int,
            ),
        decreases layout.panes.len() - k,
    {
        if same_text(layout.panes[k].pane_id.as_str(), id) {
            return Some(k);
        }
        k += 1;
    }
    None
}

/// Working-pane target: leftmost, then highest, then pane id. herdr-npm and
/// the explorer are never split.
pub fn pick_working_target<'a>(
    panes: &'a [PaneInfo],
    layout: &LayoutSnapshot,
    origin_tab: &TabId,
) -> (r: Result<&'a PaneInfo, AppError>)
    ensures
        match r {
            Ok(p) => exists|i: int|
                is_working_target(panes@, *layout, *origin_tab, i) && *p == panes@[i],
            Err(e) => e == AppError::NoWorkingTarget && forall|j: int|
                0 <= j < panes@.len() ==> !is_candidate(#[trigger] panes@[j], *layout, *origin_tab),
        },
{
    let mut best: Option<(usize, u16, u16)> = None;
    let mut i: usize = 0;
    while i < panes.len()
        invariant
            i <= panes@.len(),
            match best {
                None => forall|j: int|
                    0 <= j < i ==> !is_candidate(#[trigger] panes@[j], *layout, *origin_tab),
                Some(b) => {
                    &&& b.0 < i
                    &&& is_candidate(panes@[b.0 as int], *layout, *origin_tab)
                    &&& slot_rect(*layout, panes@[b.0 as int].pane_id@).x == b.1
                    &&& slot_rect(*layout, panes@[b.0 as int].pane_id@).y == b.2
                    &&& forall|j: int|
                        0 <= j < i && j != b.0 && is_candidate(
                            #[trigger] panes@[j],
                            *layout,
                            *origin_tab,
                        ) ==> placed_before(panes@[b.0 as int], panes@[j], *layout) || (
                        same_place(panes@[b.0 as int], panes@[j], *layout) && b.0 < j)
                },
            },
        decreases panes.len() - i,
    {
        let pane = &panes[i];
        let excluded = !same_text(pane.tab_id.as_str(), origin_tab.as_str())
            || pane.is_excluded_working_target();
        if !excluded {
            if let Some(k) = layout_slot(layout, pane.pane_id.as_str()) {
                let rect = layout.panes[k].rect;
                assert(rect == slot_rect(*layout, panes@[i as int].pane_id@));
                let better = match best {
                    None => true,
                    Some((b, bx, by)) => rect.x < bx || (rect.x == bx && (rect.y < by || (rect.y
                        == by && text_less(pane.pane_id.as_str(), panes[b].pane_id.as_str())))),
                };
                proof {
                    if let Some(bb) = best {
                        let pb = panes@[bb.0 as int];
                        let pc = panes@[i as int];
                        lemma_place_order(pc, pb, pc, *layout);
                        lemma_place_order(pb, pc, pb, *layout);
                        assert(better == placed_before(pc, pb, *layout));
                        assert forall|j: int|
                            0 <= j < i + 1 && is_candidate(#[trigger] panes@[j], *layout, *origin_tab)
                                implies (better ==> (j == i || placed_before(pc, panes@[j], *layout)
                            || (same_place(pc, panes@[j], *layout) && i < j))) && (!better ==> (j
                            == bb.0 || placed_before(pb, panes@[j], *layout) || (same_place(
                            pb,
                            panes@[j],
                            *layout,
                        ) && bb.0 < j))) by {
                            lemma_place_order(pc, pb, panes@[j], *layout);
                            lemma_place_order(pb, pc, panes@[j], *layout);
                            if j == i && !better {
                                if same_place(pb, pc, *layout) {
                                } else {
                                    assert(placed_before(pb, pc, *layout));
                                }
                            }
                        }
                    }
                }
                if better {
                    best = Some((i, rect.x, rect.y));
                }
            }
        }
        i += 1;
    }
    match best {
        None => Err(AppError::NoWorkingTarget),
        Some((b, _, _)) => Ok(&panes[b]),
    }
}

} // verus!
