//! The two-state toggle.

use vstd::prelude::*;

use crate::domain::ids::PaneId;
use crate::domain::pane::OriginContext;

verus! {

#[derive(Debug, Clone, PartialEq, Eq)]
pub enum ToggleOutcome {
    Opened(PaneId),
    Closed(PaneId),
}

/// Closing from the sidebar itself hands focus back to the working pane that
/// donated space; from another pane of the tab, focus stays where it is.
pub fn returns_focus(origin: &OriginContext, sidebar_id: &PaneId) -> (r: bool)
    ensures
        r == (origin.pane_id.0@ == sidebar_id.0@),
{
    crate::domain::text::same_text(origin.pane_id.as_str(), sidebar_id.as_str())
}

} // verus!
